use vstd::prelude::*;

verus! {

/// What can go wrong while building one package.
#[derive(Clone, Debug, PartialEq, Eq)]
pub enum BuildError {
    /// The source metadata held no `key: value` line for the key.
    MetadataFormat { key: String },
    /// The source metadata lists another package than the one requested.
    PackageMismatch { requested: String, found: String },
    /// The source control file was not there after the download.
    SourceNotFound,
    /// The stage's partial directory is there: a build of it is running or
    /// has failed.
    StageInProgress { stage: String },
    /// The stage's expected product is missing.
    ArtifactMissing { stage: String },
    /// The patch at this position of the package's list did not apply.
    PatchFailed { index: usize },
    /// An outside command ended with another status than zero; `None` when
    /// it was ended by a signal.
    CommandFailed { status: Option<i32> },
    /// Reading or writing the file system failed.
    Io { message: String },
}

/// The result of an outside command that ended with `code`.
pub open spec fn exit_result(code: Option<i32>) -> Result<(), BuildError> {
    if code == Some(0i32) {
        Ok(())
    } else {
        Err(BuildError::CommandFailed { status: code })
    }
}

/// Turns the exit code of an outside command into a result: success only
/// for the code zero.
pub fn check_exit(code: Option<i32>) -> (r: Result<(), BuildError>)
    ensures
        r == exit_result(code),
{
    match code {
        Some(0i32) => Ok(()),
        _ => Err(BuildError::CommandFailed { status: code }),
    }
}

} // verus!
