//! Choosing the `wyvern-viewer` binary for `--viewer embedded`: a sibling
//! of the CLI, then `CARGO_BIN_EXE_wyvern-viewer`, then `WYVERN_VIEWER_BIN`,
//! then `PATH`. Probing the file system is the caller's part; this module
//! decides from what it found.

use vstd::prelude::*;
use crate::text::{concat3, copy_string, owned};

verus! {

/// Failure locating or launching `wyvern-viewer`.
#[derive(Debug)]
pub enum ViewerSpawnError {
    /// Binary not found.
    NotFound {
        /// Install / path hint.
        hint: String,
    },
    /// Spawn I/O failure.
    Io {
        /// Failure detail.
        message: String,
    },
}

/// Displayed text of a viewer failure.
pub open spec fn viewer_error_text(e: ViewerSpawnError) -> Seq<char> {
    match e {
        ViewerSpawnError::NotFound { hint } => "wyvern-viewer not found; "@ + hint@,
        ViewerSpawnError::Io { message } => "failed to spawn wyvern-viewer: "@ + message@,
    }
}

impl ViewerSpawnError {
    /// Human-readable description of the failure.
    pub fn message(&self) -> (r: String)
        ensures
            r@ == viewer_error_text(*self),
    {
        match self {
            ViewerSpawnError::NotFound { hint } => crate::text::concat2(
                "wyvern-viewer not found; ",
                hint.as_str(),
            ),
            ViewerSpawnError::Io { message } => crate::text::concat2(
                "failed to spawn wyvern-viewer: ",
                message.as_str(),
            ),
        }
    }
}

/// What probing for the viewer found.
#[derive(Debug)]
pub struct ViewerProbe {
    /// The sibling of the running executable, when it is an executable file.
    pub sibling: Option<String>,
    /// `CARGO_BIN_EXE_wyvern-viewer` when set, and whether it names an
    /// executable file.
    pub cargo_bin_exe: Option<(String, bool)>,
    /// `WYVERN_VIEWER_BIN` when set, whether it names an executable file,
    /// and whether it names a file at all.
    pub wyvern_viewer_bin: Option<(String, bool, bool)>,
    /// The first executable `wyvern-viewer` on `PATH`, if any.
    pub on_path: Option<String>,
}

/// Hint when no viewer was found anywhere.
pub open spec fn default_viewer_hint() -> Seq<char> {
    "install wyvern-viewer next to wyvern, set WYVERN_VIEWER_BIN, or add it to PATH (do not silently fall back to --viewer none)"@
}

/// The viewer chosen from a probe: `Ok(path)`, or the hint of the failure.
pub open spec fn viewer_choice(
    sibling: Option<Seq<char>>,
    cargo: Option<(Seq<char>, bool)>,
    env_bin: Option<(Seq<char>, bool, bool)>,
    on_path: Option<Seq<char>>,
) -> Result<Seq<char>, Seq<char>> {
    if sibling is Some {
        Ok(sibling.unwrap())
    } else if cargo matches Some((p, true)) {
        Ok(cargo.unwrap().0)
    } else if env_bin is Some {
        let (p, exec, file) = env_bin.unwrap();
        if exec {
            Ok(p)
        } else if file {
            Err("WYVERN_VIEWER_BIN='"@ + p + "' exists but is not executable; chmod +x or fix the path"@)
        } else {
            Err("WYVERN_VIEWER_BIN='"@ + p
                + "' is not an executable file; install wyvern-viewer or fix the path"@)
        }
    } else if on_path is Some {
        Ok(on_path.unwrap())
    } else {
        Err(default_viewer_hint())
    }
}

/// Choose the viewer binary from what probing found.
pub fn resolve_viewer_bin_with(probe: &ViewerProbe) -> (r: Result<String, ViewerSpawnError>)
    ensures
        match viewer_choice(
            crate::registry::opt_view(probe.sibling),
            match probe.cargo_bin_exe {
                Some((p, e)) => Some((p@, e)),
                None => None,
            },
            match probe.wyvern_viewer_bin {
                Some((p, e, f)) => Some((p@, e, f)),
                None => None,
            },
            crate::registry::opt_view(probe.on_path),
        ) {
            Ok(p) => r matches Ok(s) && s@ == p,
            Err(h) => r matches Err(ViewerSpawnError::NotFound { hint }) && hint@ == h,
        },
{
    if let Some(s) = &probe.sibling {
        return Ok(copy_string(s));
    }
    if let Some((p, exec)) = &probe.cargo_bin_exe {
        if *exec {
            return Ok(copy_string(p));
        }
    }
    if let Some((p, exec, file)) = &probe.wyvern_viewer_bin {
        if *exec {
            return Ok(copy_string(p));
        }
        if *file {
            let hint = concat3(
                "WYVERN_VIEWER_BIN='",
                p.as_str(),
                "' exists but is not executable; chmod +x or fix the path",
            );
            return Err(ViewerSpawnError::NotFound { hint });
        }
        let hint = concat3(
            "WYVERN_VIEWER_BIN='",
            p.as_str(),
            "' is not an executable file; install wyvern-viewer or fix the path",
        );
        return Err(ViewerSpawnError::NotFound { hint });
    }
    if let Some(p) = &probe.on_path {
        return Ok(copy_string(p));
    }
    Err(
        ViewerSpawnError::NotFound {
            hint: owned(
                "install wyvern-viewer next to wyvern, set WYVERN_VIEWER_BIN, or add it to PATH (do not silently fall back to --viewer none)",
            ),
        },
    )
}

} // verus!
