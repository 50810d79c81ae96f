//! What running a command gives back, and asking whether a path exists.
use vstd::prelude::*;

verus! {

/// Running system commands.  The runs themselves happen outside this library;
/// what they give back is an `ExecResult`.
pub struct SystemExec;

/// The outcome of a command that ran.
pub struct ExecResult {
    pub success: bool,
    pub stdout: String,
    pub stderr: String,
    pub exit_code: Option<i32>,
}

impl SystemExec {
    /// Whether something exists at `path`.
    ///
    /// Calls `std::path::Path::exists`.  The answer depends on the file
    /// system at the moment of the call, so nothing is claimed of it.
    #[verifier::external_body]
    pub fn file_exists(path: &str) -> bool {
        std::path::Path::new(path).exists()
    }
}

} // verus!
