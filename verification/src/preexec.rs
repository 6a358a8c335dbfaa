//! Preexec policy: the timeout setting, the stderr tail that failures carry,
//! the failure messages, `--output` targets and the rendered page choice.
//!
//! Spawning and waiting on the helper process is the caller's I/O; this
//! module decides what the outcome of each step means.

use vstd::prelude::*;
use crate::errors::{ExtensionError, PreexecFailureKind, TemplateErrorKind};
use crate::text::{
    chars_of, concat2, copy_string, concat3, decimal, ends_with_ci, ends_with_ci_chars, lemma_lex_total,
    lemma_lex_transitive, lex_lt, owned, push_decimal, push_str, str_eq, str_lt, views,
};

verus! {

/// Preexec timeout when `WYVERN_PREEXEC_TIMEOUT_SECS` is unset.
pub const DEFAULT_PREEXEC_TIMEOUT_SECS: u64 = 30;

/// Most bytes of preexec stdout that are captured.
pub const MAX_PREEXEC_STDOUT_BYTES: usize = 1048576;

/// Most bytes of child stderr kept for error messages (the tail).
pub const MAX_PREEXEC_STDERR_BYTES: usize = 4096;

/// An ASCII decimal digit.
pub open spec fn is_digit(c: char) -> bool {
    '0' <= c && c <= '9'
}

/// Value of a decimal digit character.
pub open spec fn digit_value(c: char) -> nat {
    ((c as int) - ('0' as int)) as nat
}

/// Value of a digit string (most significant first).
pub open spec fn digits_value(s: Seq<char>) -> nat
    decreases s.len(),
{
    if s.len() == 0 {
        0
    } else {
        digits_value(s.drop_last()) * 10 + digit_value(s.last())
    }
}

/// Every character is a decimal digit.
pub open spec fn all_digits(s: Seq<char>) -> bool {
    forall|i: int| 0 <= i < s.len() ==> is_digit(#[trigger] s[i])
}

/// What `str::parse::<u64>` accepts: an optional `+`, then one or more ASCII
/// digits whose value fits in a `u64`.
pub open spec fn u64_text(s: Seq<char>) -> Option<nat> {
    let d = if s.len() > 0 && s[0] == '+' {
        s.drop_first()
    } else {
        s
    };
    if d.len() > 0 && all_digits(d) && digits_value(d) <= u64::MAX {
        Some(digits_value(d))
    } else {
        None
    }
}

proof fn lemma_digits_prefix_le(s: Seq<char>, k: int)
    requires
        0 <= k <= s.len(),
    ensures
        digits_value(s.subrange(0, k)) <= digits_value(s),
    decreases s.len(),
{
    if k == s.len() {
        assert(s.subrange(0, k) =~= s);
    } else {
        assert(s.drop_last().subrange(0, k) =~= s.subrange(0, k));
        lemma_digits_prefix_le(s.drop_last(), k);
    }
}

/// Parse an unsigned decimal as `str::parse::<u64>` does.
pub fn parse_u64_text(s: &str) -> (r: Option<u64>)
    ensures
        r matches Some(n) ==> u64_text(s@) == Some(n as nat),
        r is None ==> u64_text(s@) is None,
{
    let cs = chars_of(s);
    let mut start: usize = 0;
    if cs.len() > 0 && cs[0] == '+' {
        start = 1;
    }
    let ghost d = if s@.len() > 0 && s@[0] == '+' {
        s@.drop_first()
    } else {
        s@
    };
    assert(d =~= cs@.subrange(start as int, cs@.len() as int));
    if start >= cs.len() {
        return None;
    }
    let mut acc: u64 = 0;
    let mut i: usize = start;
    while i < cs.len()
        invariant
            cs@ == s@,
            d == (if s@.len() > 0 && s@[0] == '+' {
                s@.drop_first()
            } else {
                s@
            }),
            start <= i <= cs.len(),
            d == cs@.subrange(start as int, cs@.len() as int),
            all_digits(cs@.subrange(start as int, i as int)),
            acc as nat == digits_value(cs@.subrange(start as int, i as int)),
        decreases cs.len() - i,
    {
        let c = cs[i];
        if c < '0' || c > '9' {
            assert(d[i - start] == c);
            assert(!is_digit(d[i - start]));
            assert(!all_digits(d));
            return None;
        }
        let dv: u64 = ((c as u32) - 48) as u64;
        let ghost pre = cs@.subrange(start as int, i as int);
        let ghost next = cs@.subrange(start as int, i + 1);
        assert(next.drop_last() =~= pre);
        assert(next.last() == c);
        assert(digit_value(c) == dv as nat);
        assert(digits_value(next) == acc as nat * 10 + dv as nat);
        if acc > (u64::MAX - dv) / 10 {
            proof {
                assert(acc as nat * 10 + dv as nat > u64::MAX);
                assert(digits_value(next) > u64::MAX);
                if all_digits(d) {
                    assert(next =~= d.subrange(0, (i + 1 - start) as int));
                    lemma_digits_prefix_le(d, (i + 1 - start) as int);
                }
            }
            return None;
        }
        acc = acc * 10 + dv;
        i = i + 1;
    }
    assert(cs@.subrange(start as int, i as int) =~= d);
    Some(acc)
}

/// Outcome of reading `WYVERN_PREEXEC_TIMEOUT_SECS` (`None` when unset):
/// the timeout in seconds, or the failure message.
pub open spec fn timeout_setting(raw: Option<Seq<char>>) -> Result<nat, Seq<char>> {
    match raw {
        None => Ok(DEFAULT_PREEXEC_TIMEOUT_SECS as nat),
        Some(v) => match u64_text(v) {
            None => Err("WYVERN_PREEXEC_TIMEOUT_SECS="@ + v + " is not a positive integer"@),
            Some(n) => if n < 1 {
                Err("WYVERN_PREEXEC_TIMEOUT_SECS must be at least 1"@)
            } else {
                Ok(n)
            },
        },
    }
}

/// The preexec timeout in seconds from the raw setting; values below one
/// second, and anything that is not an unsigned integer, are refused.
pub fn parse_preexec_timeout_secs(raw: Option<&str>) -> (r: Result<u64, ExtensionError>)
    ensures
        match timeout_setting(
            match raw {
                Some(v) => Some(v@),
                None => None,
            },
        ) {
            Ok(n) => r matches Ok(secs) && secs as nat == n,
            Err(m) => r matches Err(ExtensionError::Preexec { kind: None, message })
                && message@ == m,
        },
{
    match raw {
        None => Ok(DEFAULT_PREEXEC_TIMEOUT_SECS),
        Some(v) => match parse_u64_text(v) {
            None => Err(
                ExtensionError::Preexec {
                    kind: None,
                    message: concat3("WYVERN_PREEXEC_TIMEOUT_SECS=", v, " is not a positive integer"),
                },
            ),
            Some(secs) => {
                if secs < 1 {
                    Err(
                        ExtensionError::Preexec {
                            kind: None,
                            message: owned("WYVERN_PREEXEC_TIMEOUT_SECS must be at least 1"),
                        },
                    )
                } else {
                    Ok(secs)
                }
            },
        },
    }
}

/// The last `cap` bytes of `s` (all of it when shorter).
pub open spec fn tail_of(s: Seq<u8>, cap: nat) -> Seq<u8> {
    if s.len() > cap {
        s.subrange(s.len() - cap, s.len() as int)
    } else {
        s
    }
}

/// Append a chunk of output and keep only the last `cap` bytes.
pub fn append_tail(tail: &mut Vec<u8>, data: &[u8], cap: usize)
    ensures
        final(tail)@ == tail_of(old(tail)@ + data@, cap as nat),
{
    let ghost all = old(tail)@ + data@;
    let mut out: Vec<u8> = Vec::new();
    if data.len() >= cap {
        let from = data.len() - cap;
        let mut i: usize = from;
        while i < data.len()
            invariant
                from <= i <= data.len(),
                out@ == data@.subrange(from as int, i as int),
            decreases data.len() - i,
        {
            out.push(data[i]);
            i = i + 1;
            assert(out@ =~= data@.subrange(from as int, i as int));
        }
        assert(out@ =~= tail_of(all, cap as nat));
    } else {
        let room = cap - data.len();
        let drop: usize = if tail.len() > room {
            tail.len() - room
        } else {
            0
        };
        let mut i: usize = drop;
        while i < tail.len()
            invariant
                drop <= i <= tail.len(),
                out@ == tail@.subrange(drop as int, i as int),
            decreases tail.len() - i,
        {
            out.push(tail[i]);
            i = i + 1;
            assert(out@ =~= tail@.subrange(drop as int, i as int));
        }
        let mut j: usize = 0;
        while j < data.len()
            invariant
                j <= data.len(),
                out@ == tail@.subrange(drop as int, tail@.len() as int) + data@.subrange(0, j as int),
            decreases data.len() - j,
        {
            out.push(data[j]);
            j = j + 1;
            assert(out@ =~= tail@.subrange(drop as int, tail@.len() as int) + data@.subrange(
                0,
                j as int,
            ));
        }
        assert(data@.subrange(0, data@.len() as int) =~= data@);
        assert(out@ =~= tail_of(all, cap as nat));
    }
    *tail = out;
}

/// Keeping the tail chunk by chunk keeps the tail of the whole stream.
pub proof fn lemma_tail_of_chunks(a: Seq<u8>, b: Seq<u8>, cap: nat)
    ensures
        tail_of(tail_of(a, cap) + b, cap) == tail_of(a + b, cap),
{
    let t = tail_of(a, cap);
    if a.len() > cap {
        if t.len() + b.len() > cap {
            assert(tail_of(t + b, cap) =~= tail_of(a + b, cap));
        } else {
            assert(b.len() == 0);
            assert(t + b =~= t);
            assert(a + b =~= a);
        }
    } else {
        assert(t == a);
    }
}

/// Message of a preexec helper that stopped unsuccessfully.
pub open spec fn fail_message(cmd: Seq<char>, status: Seq<char>, stderr: Seq<char>) -> Seq<char> {
    if stderr.len() == 0 {
        "'"@ + cmd + "' exited with "@ + status
    } else {
        "'"@ + cmd + "' exited with "@ + status + ": "@ + stderr
    }
}

/// `'cmd' exited with status[: stderr]`.
pub fn preexec_fail_message(cmd: &str, status: &str, stderr: &str) -> (r: String)
    ensures
        r@ == fail_message(cmd@, status@, stderr@),
{
    let mut m = concat3("'", cmd, "' exited with ");
    push_str(&mut m, status);
    if stderr.unicode_len() > 0 {
        push_str(&mut m, ": ");
        push_str(&mut m, stderr);
    }
    m
}

/// The helper could not be spawned; `not_found` tells a missing binary
/// apart from other spawn failures.
pub fn spawn_error(cmd: &str, not_found: bool, detail: &str) -> (r: ExtensionError)
    ensures
        r matches ExtensionError::Preexec { kind, message } && message@ == "failed to spawn '"@
            + cmd@ + "': "@ + detail@ && (not_found ==> (kind matches Some(
            PreexecFailureKind::SpawnNotFound { cmd: c },
        ) && c@ == cmd@)) && (!not_found ==> kind is None),
{
    let mut message = concat3("failed to spawn '", cmd, "': ");
    push_str(&mut message, detail);
    let kind = if not_found {
        Some(PreexecFailureKind::SpawnNotFound { cmd: owned(cmd) })
    } else {
        None
    };
    ExtensionError::Preexec { kind, message }
}

/// The helper exited unsuccessfully: `code` is its exit code (absent when a
/// signal ended it, which counts as `1`), `status` the status as displayed.
pub fn nonzero_error(cmd: &str, code: Option<i32>, status: &str, stderr: String) -> (r:
    ExtensionError)
    ensures
        r matches ExtensionError::Preexec {
            kind: Some(PreexecFailureKind::NonZeroExit { code: c, stderr_tail }),
            message,
        } && c == (match code {
            Some(x) => x,
            None => 1i32,
        }) && stderr_tail@ == stderr@ && message@ == fail_message(cmd@, status@, stderr@),
{
    let message = preexec_fail_message(cmd, status, stderr.as_str());
    let c = match code {
        Some(x) => x,
        None => 1,
    };
    ExtensionError::Preexec {
        kind: Some(PreexecFailureKind::NonZeroExit { code: c, stderr_tail: stderr }),
        message,
    }
}

/// `timed out after Ns`.
pub open spec fn timed_out_text(secs: nat) -> Seq<char> {
    "timed out after "@ + decimal(secs) + "s"@
}

/// The helper outlived its timeout while the caller waited for it to exit.
pub fn wait_timeout_error(cmd: &str, timeout_secs: u64) -> (r: ExtensionError)
    ensures
        r matches ExtensionError::Preexec {
            kind: Some(PreexecFailureKind::Timeout { cmd: c, timeout_secs: t }),
            message,
        } && c@ == cmd@ && t == timeout_secs && message@ == cmd@ + " "@ + timed_out_text(
            timeout_secs as nat,
        ),
{
    let mut message = concat2(cmd, " timed out after ");
    push_decimal(&mut message, timeout_secs);
    push_str(&mut message, "s");
    proof {
        reveal_strlit(" timed out after ");
        reveal_strlit(" ");
        reveal_strlit("timed out after ");
    }
    assert(message@ =~= cmd@ + " "@ + timed_out_text(timeout_secs as nat));
    ExtensionError::Preexec {
        kind: Some(PreexecFailureKind::Timeout { cmd: owned(cmd), timeout_secs }),
        message,
    }
}

/// The helper outlived its timeout while its stdout was being captured.
pub fn capture_timeout_error(cmd: &str, timeout_secs: u64, stderr: &str) -> (r: ExtensionError)
    ensures
        r matches ExtensionError::Preexec {
            kind: Some(PreexecFailureKind::Timeout { cmd: c, timeout_secs: t }),
            message,
        } && c@ == cmd@ && t == timeout_secs && message@ == fail_message(
            cmd@,
            timed_out_text(timeout_secs as nat),
            stderr@,
        ),
{
    let mut status = owned("timed out after ");
    push_decimal(&mut status, timeout_secs);
    push_str(&mut status, "s");
    let message = preexec_fail_message(cmd, status.as_str(), stderr);
    ExtensionError::Preexec {
        kind: Some(PreexecFailureKind::Timeout { cmd: owned(cmd), timeout_secs }),
        message,
    }
}

/// Refuse captured stdout longer than the cap.
pub fn check_captured_len(cmd: &str, len: usize) -> (r: Result<(), ExtensionError>)
    ensures
        len <= MAX_PREEXEC_STDOUT_BYTES <==> r is Ok,
        r matches Err(ExtensionError::Preexec { kind: None, message }) || r is Ok,
        r matches Err(ExtensionError::Preexec { message, .. }) ==> message@ == cmd@
            + " stdout exceeded "@ + decimal(MAX_PREEXEC_STDOUT_BYTES as nat) + " bytes"@,
{
    if len > MAX_PREEXEC_STDOUT_BYTES {
        let mut message = concat2(cmd, " stdout exceeded ");
        push_decimal(&mut message, MAX_PREEXEC_STDOUT_BYTES as u64);
        push_str(&mut message, " bytes");
        Err(ExtensionError::Preexec { kind: None, message })
    } else {
        Ok(())
    }
}

/// Values that follow an `--output` token (each adjacent pair is looked at,
/// as `windows(2)` does).
pub open spec fn output_targets_from(args: Seq<Seq<char>>, i: int) -> Seq<Seq<char>>
    decreases args.len() - i,
{
    if i < 0 || i + 1 >= args.len() {
        Seq::empty()
    } else if args[i] == "--output"@ {
        seq![args[i + 1]] + output_targets_from(args, i + 1)
    } else {
        output_targets_from(args, i + 1)
    }
}

/// The paths given to `--output` in preexec arguments, in order; the caller
/// creates their parent directories before the helper runs.
pub fn preexec_output_targets(args: &Vec<String>) -> (r: Vec<String>)
    ensures
        views(r@) == output_targets_from(views(args@), 0),
{
    let ghost a = views(args@);
    let mut out: Vec<String> = Vec::new();
    let n = args.len();
    if n < 2 {
        return out;
    }
    let mut i: usize = n - 1;
    assert(views(out@) =~= output_targets_from(a, (n - 1) as int));
    while i > 0
        invariant
            a == views(args@),
            n == args.len(),
            i < n,
            views(out@) == output_targets_from(a, i as int),
        decreases i,
    {
        i = i - 1;
        if str_eq(args[i].as_str(), "--output") {
            let mut next: Vec<String> = Vec::new();
            next.push(copy_string(&args[i + 1]));
            let ghost before = views(out@);
            let mut k: usize = 0;
            while k < out.len()
                invariant
                    a == views(args@),
                    n == args.len(),
                    i + 1 < n,
                    k <= out.len(),
                    views(out@) == before,
                    views(next@) == seq![a[i + 1]] + before.subrange(0, k as int),
                decreases out.len() - k,
            {
                let ghost nb = views(next@);
                next.push(copy_string(&out[k]));
                assert(views(next@) =~= nb.push(out@[k as int]@));
                assert(before[k as int] == out@[k as int]@);
                assert(before.subrange(0, k + 1) =~= before.subrange(0, k as int).push(
                    before[k as int],
                ));
                k = k + 1;
                assert(views(next@) =~= seq![a[i + 1]] + before.subrange(0, k as int));
            }
            assert(before.subrange(0, out.len() as int) =~= before);
            out = next;
        }
    }
    out
}

/// A page name that counts as rendered HTML (`*.html`, any ASCII case).
pub open spec fn is_html_name(n: Seq<char>) -> bool {
    ends_with_ci(n, ".html"@)
}

/// Whether `names` holds a rendered HTML page name.
pub open spec fn has_html(names: Seq<Seq<char>>) -> bool {
    exists|i: int| 0 <= i < names.len() && is_html_name(#[trigger] names[i])
}

/// `n` is the lexicographically first HTML page name in `names`.
pub open spec fn is_first_html(n: Seq<char>, names: Seq<Seq<char>>) -> bool {
    &&& names.contains(n)
    &&& is_html_name(n)
    &&& forall|j: int|
        0 <= j < names.len() && is_html_name(#[trigger] names[j]) ==> names[j] == n || lex_lt(
            n,
            names[j],
        )
}

/// The lexicographically first `*.html` name among the entries of
/// `{tmpdir}/pages` (`pages` is that directory as displayed).
pub fn first_rendered_html(pages: &str, entries: &Vec<String>) -> (r: Result<String, ExtensionError>)
    ensures
        has_html(views(entries@)) <==> r is Ok,
        r matches Ok(n) ==> is_first_html(n@, views(entries@)),
        r matches Err(e) ==> e matches ExtensionError::Template { kind, message } && kind
            == TemplateErrorKind::Unavailable && message@ == "{rendered_basename} found no *.html under "@
            + pages@,
{
    let ghost es = views(entries@);
    let suffix = chars_of(".html");
    let mut best: Option<usize> = None;
    let mut i: usize = 0;
    while i < entries.len()
        invariant
            es == views(entries@),
            suffix@ == ".html"@,
            i <= entries.len(),
            best matches Some(b) ==> b < i && is_html_name(es[b as int]) && forall|j: int|
                0 <= j < i && is_html_name(#[trigger] es[j]) ==> es[j] == es[b as int] || lex_lt(
                    es[b as int],
                    es[j],
                ),
            best is None ==> forall|j: int| 0 <= j < i ==> !is_html_name(#[trigger] es[j]),
        decreases entries.len() - i,
    {
        let cs = chars_of(entries[i].as_str());
        if ends_with_ci_chars(&cs, &suffix) {
            assert(is_html_name(es[i as int]));
            match best {
                None => {
                    best = Some(i);
                },
                Some(b) => {
                    if str_lt(entries[i].as_str(), entries[b].as_str()) {
                        proof {
                            assert forall|j: int|
                                0 <= j < i + 1 && is_html_name(#[trigger] es[j]) implies es[j]
                                == es[i as int] || lex_lt(es[i as int], es[j]) by {
                                if j < i && es[j] != es[b as int] {
                                    lemma_lex_transitive(es[i as int], es[b as int], es[j]);
                                }
                            }
                        }
                        best = Some(i);
                    } else {
                        proof {
                            if es[i as int] != es[b as int] {
                                lemma_lex_total(es[i as int], es[b as int]);
                            }
                        }
                    }
                },
            }
        }
        i = i + 1;
    }
    match best {
        Some(b) => {
            assert(es[b as int] == entries@[b as int]@);
            assert(es.contains(es[b as int]));
            Ok(entries[b].clone())
        },
        None => Err(
            ExtensionError::Template {
                kind: TemplateErrorKind::Unavailable,
                message: concat2("{rendered_basename} found no *.html under ", pages),
            },
        ),
    }
}

/// `{tmpdir}/pages` could not be listed.
pub fn pages_unreadable_error(pages: &str, detail: &str) -> (r: ExtensionError)
    ensures
        r matches ExtensionError::Template { kind, message } && kind
            == TemplateErrorKind::Unavailable && message@ == "{rendered_basename} requires {tmpdir}/pages ("@
            + pages@ + "): "@ + detail@,
{
    let mut message = concat3("{rendered_basename} requires {tmpdir}/pages (", pages, "): ");
    push_str(&mut message, detail);
    ExtensionError::Template { kind: TemplateErrorKind::Unavailable, message }
}

/// The extension temp dir could not be created.
pub fn tmpdir_create_error(detail: &str) -> (r: ExtensionError)
    ensures
        r matches ExtensionError::Io { message } && message@
            == "could not create extension temp dir: "@ + detail@,
{
    ExtensionError::Io { message: concat2("could not create extension temp dir: ", detail) }
}

/// The parent directory of a preexec `--output` target could not be created.
pub fn output_parent_error(parent: &str, detail: &str) -> (r: ExtensionError)
    ensures
        r matches ExtensionError::Io { message } && message@
            == "could not create preexec output parent '"@ + parent@ + "': "@ + detail@,
{
    let mut message = concat3("could not create preexec output parent '", parent, "': ");
    push_str(&mut message, detail);
    ExtensionError::Io { message }
}

/// Failure of a helper script run (spawn, timeout, wait, or stdout capture).
/// Operating-system errors are carried as their displayed text.
#[derive(Debug)]
pub enum ScriptError {
    /// Program was not found on PATH or as an absolute file.
    SpawnNotFound {
        /// Program token.
        cmd: String,
        /// The operating-system error, as displayed.
        source: String,
    },
    /// Spawn failed for a reason other than not-found.
    Spawn {
        /// Program token.
        cmd: String,
        /// The operating-system error, as displayed.
        source: String,
    },
    /// Child exceeded its timeout.
    Timeout {
        /// Program token.
        cmd: String,
        /// Timeout in seconds.
        timeout_secs: u64,
        /// Stderr collected before the kill.
        stderr_tail: String,
    },
    /// Waiting for the child failed after spawn.
    Wait {
        /// Program token.
        cmd: String,
        /// The operating-system error, as displayed.
        source: String,
    },
    /// Stdout could not be read, was not UTF-8, or exceeded the cap.
    Stdout {
        /// Program token.
        cmd: String,
        /// Human-readable cause.
        cause: String,
    },
    /// A helper thread could not be started.
    Thread {
        /// Human-readable cause.
        message: String,
    },
}

/// Displayed text of a script failure.
pub open spec fn script_error_text(e: ScriptError) -> Seq<char> {
    match e {
        ScriptError::SpawnNotFound { cmd, source } => "failed to spawn '"@ + cmd@ + "': "@
            + source@,
        ScriptError::Spawn { cmd, source } => "failed to spawn '"@ + cmd@ + "': "@ + source@,
        ScriptError::Timeout { cmd, timeout_secs, .. } => cmd@ + " "@ + timed_out_text(
            timeout_secs as nat,
        ),
        ScriptError::Wait { cmd, source } => cmd@ + " wait failed: "@ + source@,
        ScriptError::Stdout { cmd, cause } => cmd@ + " stdout: "@ + cause@,
        ScriptError::Thread { message } => message@,
    }
}

impl ScriptError {
    /// Human-readable description of the failure.
    pub fn message(&self) -> (r: String)
        ensures
            r@ == script_error_text(*self),
    {
        match self {
            ScriptError::SpawnNotFound { cmd, source } | ScriptError::Spawn { cmd, source } => {
                let mut m = concat3("failed to spawn '", cmd.as_str(), "': ");
                push_str(&mut m, source.as_str());
                m
            },
            ScriptError::Timeout { cmd, timeout_secs, .. } => {
                let mut m = concat2(cmd.as_str(), " timed out after ");
                push_decimal(&mut m, *timeout_secs);
                push_str(&mut m, "s");
                proof {
                    reveal_strlit(" timed out after ");
                    reveal_strlit(" ");
                    reveal_strlit("timed out after ");
                }
                assert(m@ =~= script_error_text(*self));
                m
            },
            ScriptError::Wait { cmd, source } => concat3(
                cmd.as_str(),
                " wait failed: ",
                source.as_str(),
            ),
            ScriptError::Stdout { cmd, cause } => concat3(cmd.as_str(), " stdout: ", cause.as_str()),
            ScriptError::Thread { message } => copy_string(message),
        }
    }
}

} // verus!
