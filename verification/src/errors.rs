//! The error taxonomy: which failures are fatal, and what they carry.

use vstd::prelude::*;

verus! {

/// A fatal failure of one of the core operations.
#[derive(Debug)]
pub enum Error {
    /// The kernel's version file exists but its text is unrecognizable.
    Detection,
    /// The probe build's diagnostics held no recognizable `got:` hash line.
    HashDiscovery,
    /// The hash-pinned build exited non-zero; carries the full diagnostics.
    BuildFailure(String),
    /// Rendering a descriptor or unit from its template failed.
    Render,
    /// An existing cache or state file could not be parsed.
    Parse,
    /// A cache write failed for a reason other than missing permission.
    CacheWrite(String),
    /// An install or uninstall step failed for a reason other than
    /// "already absent"; carries the step's own report.
    Lifecycle(String),
}

impl Error {
    /// A short human-readable tag for each variant, for the binary to print.
    pub fn describe(&self) -> (r: String)
        ensures
            r@.len() > 0,
    {
        let s: &str = match self {
            Error::Detection => "failed to parse NVIDIA version",
            Error::HashDiscovery => "could not find sha256 in build output",
            Error::BuildFailure(_) => "build failed",
            Error::Render => "template rendering failed",
            Error::Parse => "unparsable JSON in an existing file",
            Error::CacheWrite(_) => "writing hash cache failed",
            Error::Lifecycle(_) => "install/uninstall step failed",
        };
        proof {
            reveal_strlit("failed to parse NVIDIA version");
            reveal_strlit("could not find sha256 in build output");
            reveal_strlit("build failed");
            reveal_strlit("template rendering failed");
            reveal_strlit("unparsable JSON in an existing file");
            reveal_strlit("writing hash cache failed");
            reveal_strlit("install/uninstall step failed");
        }
        s.to_owned()
    }
}

} // verus!
