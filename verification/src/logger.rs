//! Verbosity configuration, threaded explicitly through callers instead of
//! living in process-global state.  The printing itself happens in the
//! application shell; the library only carries the setting.

use vstd::prelude::*;

verus! {

/// The logging configuration of one invocation.
#[derive(PartialEq, Eq, Structural, Clone, Copy, Debug)]
pub struct LoggerConfig {
    pub verbose: bool,
}

/// Build the logging configuration for an invocation.
pub fn init(verbose: bool) -> (r: LoggerConfig)
    ensures
        r.verbose == verbose,
{
    LoggerConfig { verbose }
}

/// Whether verbose output was requested.
pub fn is_verbose(config: &LoggerConfig) -> (r: bool)
    ensures
        r == config.verbose,
{
    config.verbose
}

} // verus!
