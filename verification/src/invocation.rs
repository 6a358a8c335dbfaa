//! Driving the expansion of a matched extension: create the temp dir when a
//! template uses `{tmpdir}`, run the preexec helper, find the rendered page,
//! then expand the command. Each call says what is needed next; the caller
//! performs that step, records its outcome in the match context, and asks
//! again.

use vstd::prelude::*;
use crate::errors::{ExtensionError, TemplateErrorKind};
use crate::expand::{
    command_host_spec, expand_command_host, expand_preexec_args, failure_error,
    preexec_args_spec, references_rendered_basename, references_tmpdir, source_view,
    templates_contain_spec, CommandSource, HostOverrides, MatchContext,
};
use crate::preexec::{output_targets_from, preexec_output_targets};
use crate::registry::{opt_view, ExtensionDef, StdoutCapture};
use crate::text::{owned, views};

verus! {

/// The next step of expanding a matched extension.
#[derive(Debug)]
pub enum ExpandAction {
    /// Create the secure temp dir and record it as `tmpdir`.
    CreateTmpdir,
    /// Create the parents of `output_targets`, run `cmd args`, and record
    /// the captured stdout (when `capture` asks for it) as `preexec_stdout`.
    RunPreexec {
        /// Expanded `preexec.cmd`.
        cmd: String,
        /// Expanded `preexec.args`.
        args: Vec<String>,
        /// Paths given to `--output` among `args`.
        output_targets: Vec<String>,
        /// How stdout is captured.
        capture: Option<StdoutCapture>,
    },
    /// List `{tmpdir}/pages` and record the first rendered page as
    /// `rendered_basename`.
    FindRenderedPage {
        /// The temp dir.
        tmpdir: String,
    },
    /// Expansion is complete.
    Done {
        /// The expanded command (or the path of the file that holds it).
        command: CommandSource,
        /// Expanded host overrides.
        host: HostOverrides,
    },
}

/// What comes next for `ext` in context `ctx` (`preexec_done` tells whether
/// the helper already ran).
pub open spec fn expand_action_ok(
    ext: ExtensionDef,
    ctx: MatchContext,
    preexec_done: bool,
    r: Result<ExpandAction, ExtensionError>,
) -> bool {
    if templates_contain_spec(ext, "{tmpdir}"@) && ctx.tmpdir is None {
        r matches Ok(ExpandAction::CreateTmpdir)
    } else if ext.preexec is Some && !preexec_done {
        let pre = ext.preexec.unwrap();
        match preexec_args_spec(pre, ext, ctx) {
            Ok((cmd, args)) => r matches Ok(
                ExpandAction::RunPreexec { cmd: c, args: a, output_targets: t, capture },
            ) && c@ == cmd && views(a@) == args && views(t@) == output_targets_from(args, 0)
                && capture == pre.stdout,
            Err(f) => r matches Err(e) && failure_error(ext, f, e),
        }
    } else if ext.preexec is Some && templates_contain_spec(ext, "{rendered_basename}"@)
        && ctx.rendered_basename is None {
        match ctx.tmpdir {
            None => r matches Err(ExtensionError::Template { kind, message }) && kind
                == TemplateErrorKind::Unavailable && message@
                == "{rendered_basename} requires {tmpdir}"@,
            Some(t) => r matches Ok(ExpandAction::FindRenderedPage { tmpdir }) && tmpdir@ == t@,
        }
    } else {
        match command_host_spec(ext, ctx) {
            Ok((src, ui)) => r matches Ok(ExpandAction::Done { command, host }) && source_view(
                command,
            ) == src && opt_view(host.ui_root) == ui,
            Err(f) => r matches Err(e) && failure_error(ext, f, e),
        }
    }
}

/// The next step of expanding `ext` in context `ctx`.
pub fn next_expand_action(ext: &ExtensionDef, ctx: &MatchContext, preexec_done: bool) -> (r: Result<
    ExpandAction,
    ExtensionError,
>)
    ensures
        expand_action_ok(*ext, *ctx, preexec_done, r),
{
    if references_tmpdir(ext) && ctx.tmpdir.is_none() {
        return Ok(ExpandAction::CreateTmpdir);
    }
    match &ext.preexec {
        Some(pre) => {
            if !preexec_done {
                let (cmd, args) = expand_preexec_args(pre, ext, ctx)?;
                let output_targets = preexec_output_targets(&args);
                return Ok(ExpandAction::RunPreexec { cmd, args, output_targets, capture: pre.stdout });
            }
            if references_rendered_basename(ext) && ctx.rendered_basename.is_none() {
                return match &ctx.tmpdir {
                    None => Err(
                        ExtensionError::Template {
                            kind: TemplateErrorKind::Unavailable,
                            message: owned("{rendered_basename} requires {tmpdir}"),
                        },
                    ),
                    Some(t) => Ok(ExpandAction::FindRenderedPage { tmpdir: owned(t.as_str()) }),
                };
            }
        },
        None => {},
    }
    let (command, host) = expand_command_host(ext, ctx)?;
    Ok(ExpandAction::Done { command, host })
}

} // verus!
