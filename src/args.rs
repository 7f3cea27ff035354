use vstd::prelude::*;

verus! {

/// `std::path::PathBuf`, carried through opaquely: the name of the source
/// file, which only the front end opens.
#[verifier::external_type_specification]
#[verifier::external_body]
pub struct ExPathBuf(std::path::PathBuf);

/// Configuration of a run.
pub struct Config {
    /// Verbose logging.
    pub verbose: bool,
    /// Enforce strict SSA form.
    pub ssa: bool,
    /// Time budget in seconds; none means no budget.
    pub timeout: Option<u64>,
    /// The source file.
    pub file_name: std::path::PathBuf,
}

impl Config {
    /// Defaults: not verbose, no SSA check, no time budget.
    pub fn new_defaults(file_name: std::path::PathBuf) -> (r: Self)
        ensures
            !r.verbose,
            !r.ssa,
            r.timeout is None,
            r.file_name == file_name,
    {
        Config { file_name, ssa: false, verbose: false, timeout: None }
    }

    /// Defaults, with a time budget of `timeout` seconds.
    pub fn new_timeout(file_name: std::path::PathBuf, timeout: u64) -> (r: Self)
        ensures
            !r.verbose,
            !r.ssa,
            r.timeout == Some(timeout),
            r.file_name == file_name,
    {
        Config { file_name, ssa: false, verbose: false, timeout: Some(timeout) }
    }
}

} // verus!
