//! Choosing the executable of a package from what `cargo build` reports.

use vstd::prelude::*;

verus! {

/// A message of `cargo build`, as far as finding a package's executable
/// goes: a compiler diagnostic, a finished artifact (its target's name and
/// whether it has an executable), the end of the build, or anything else.
pub enum CargoReport {
    Diagnostic,
    Artifact { target: Vec<u8>, executable: bool },
    Finished { success: bool },
    Other,
}

/// What to do with a message while looking for the executable.
#[derive(Debug, Clone, Copy, PartialEq, Eq, Structural)]
pub enum BuildOutcome {
    /// Print the diagnostic and go on.
    Show,
    /// The package's artifact, with its executable: done.
    Executable,
    /// The package's artifact has no executable: fail.
    NoExecutable,
    /// The build failed: fail.
    Failed,
    /// Go on with the next message.
    Next,
}

/// The decision on a message when looking for the executable of package
/// `name`: diagnostics are shown, the artifact whose target is the package
/// ends the search (with its executable, or failing without one), a failed
/// build ends it, and every other message is passed over.
pub open spec fn build_step_spec(name: Seq<u8>, report: CargoReport) -> BuildOutcome {
    match report {
        CargoReport::Diagnostic => BuildOutcome::Show,
        CargoReport::Artifact { target, executable } => if target@ == name {
            if executable {
                BuildOutcome::Executable
            } else {
                BuildOutcome::NoExecutable
            }
        } else {
            BuildOutcome::Next
        },
        CargoReport::Finished { success } => if success {
            BuildOutcome::Next
        } else {
            BuildOutcome::Failed
        },
        CargoReport::Other => BuildOutcome::Next,
    }
}

/// Whether two byte strings are equal.
fn same_bytes(a: &[u8], b: &[u8]) -> (r: bool)
    ensures
        r == (a@ == b@),
{
    if a.len() != b.len() {
        return false;
    }
    let mut i: usize = 0;
    while i < a.len()
        invariant
            i <= a@.len(),
            a@.len() == b@.len(),
            forall|j: int| 0 <= j < i ==> a@[j] == b@[j],
        decreases a@.len() - i,
    {
        if a[i] != b[i] {
            return false;
        }
        i = i + 1;
    }
    assert(a@ =~= b@);
    true
}

/// The decision on a message of `cargo build` (see `build_step_spec`).
pub fn build_step(name: &[u8], report: &CargoReport) -> (o: BuildOutcome)
    ensures
        o == build_step_spec(name@, *report),
{
    match report {
        CargoReport::Diagnostic => BuildOutcome::Show,
        CargoReport::Artifact { target, executable } => {
            if same_bytes(target.as_slice(), name) {
                if *executable {
                    BuildOutcome::Executable
                } else {
                    BuildOutcome::NoExecutable
                }
            } else {
                BuildOutcome::Next
            }
        },
        CargoReport::Finished { success } => {
            if *success {
                BuildOutcome::Next
            } else {
                BuildOutcome::Failed
            }
        },
        CargoReport::Other => BuildOutcome::Next,
    }
}

} // verus!
