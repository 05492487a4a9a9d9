//! The rules that make install and uninstall idempotent: what each step's
//! outcome means, and which files uninstall removes in which order.

use crate::errors::Error;
use crate::state::{gcroot_symlink, state_bak, state_file};
use vstd::prelude::*;
use vstd::string::*;

verus! {

/// How one filesystem or service-manager step ended, as the binary reports
/// it back to the library.
#[derive(Debug)]
pub enum StepOutcome {
    /// The step did its work.
    Done,
    /// The step's target was already absent.
    NotFound,
    /// The step was refused for lack of permission.
    PermissionDenied,
    /// The step failed some other way; carries the step's own report.
    Failed(String),
}

/// The rule for one removal step of uninstall: a target already absent is
/// success — removing what was never installed is a no-op — while a
/// permission refusal aborts the remaining steps, and so does any other
/// failure.
pub fn removal_result(outcome: &StepOutcome) -> (r: Result<(), Error>)
    ensures
        outcome is Done ==> r is Ok,
        outcome is NotFound ==> r is Ok,
        outcome is PermissionDenied ==> (r matches Err(e) && e is Lifecycle),
        outcome matches StepOutcome::Failed(m) ==> (r matches Err(e) && e matches Error::Lifecycle(
            t,
        ) && t@ == m@),
{
    match outcome {
        StepOutcome::Done => Ok(()),
        StepOutcome::NotFound => Ok(()),
        StepOutcome::PermissionDenied => Err(Error::Lifecycle("permission denied".to_owned())),
        StepOutcome::Failed(m) => Err(Error::Lifecycle(m.clone())),
    }
}

/// The rule for one install step: anything short of success is fatal.
pub fn install_step_result(outcome: &StepOutcome) -> (r: Result<(), Error>)
    ensures
        outcome is Done ==> r is Ok,
        !(outcome is Done) ==> (r matches Err(e) && e is Lifecycle),
{
    match outcome {
        StepOutcome::Done => Ok(()),
        StepOutcome::NotFound => Err(Error::Lifecycle("target not found".to_owned())),
        StepOutcome::PermissionDenied => Err(Error::Lifecycle("permission denied".to_owned())),
        StepOutcome::Failed(m) => Err(Error::Lifecycle(m.clone())),
    }
}

/// The rule for persisting the hash cache: a permission refusal degrades to a
/// warned non-persisted success — the discovered hash is still used for the
/// current run — and any other failure is fatal.
pub fn cache_write_result(outcome: &StepOutcome) -> (r: Result<bool, Error>)
    ensures
        outcome is Done ==> (r matches Ok(persisted) && persisted),
        outcome is PermissionDenied ==> (r matches Ok(persisted) && !persisted),
        outcome is NotFound ==> (r matches Err(e) && e is CacheWrite),
        outcome matches StepOutcome::Failed(m) ==> (r matches Err(e) && e matches Error::CacheWrite(
            t,
        ) && t@ == m@),
{
    match outcome {
        StepOutcome::Done => Ok(true),
        StepOutcome::PermissionDenied => Ok(false),
        StepOutcome::NotFound => Err(Error::CacheWrite("target not found".to_owned())),
        StepOutcome::Failed(m) => Err(Error::CacheWrite(m.clone())),
    }
}

/// The files uninstall removes first, in order: the GC-root pin of the farm,
/// the state primary, the state backup.
pub fn uninstall_file_paths() -> (r: Vec<String>)
    ensures
        r@.len() == 3,
        r@[0]@ == "/nix/var/nix/gcroots/nix-opengl-driver/current"@,
        r@[1]@ == "/var/lib/nix-opengl-driver/state.json"@,
        r@[2]@ == "/var/lib/nix-opengl-driver/state.json.bak"@,
{
    let mut v: Vec<String> = Vec::new();
    v.push(gcroot_symlink());
    v.push(state_file());
    v.push(state_bak());
    v
}

} // verus!
