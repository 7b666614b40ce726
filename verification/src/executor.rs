//! Limits of a script execution and what is reported about it.
use vstd::prelude::*;

verus! {

/// Configuration for the script executor.
#[derive(Debug, Clone, Copy, PartialEq, Eq)]
pub struct ExecutorConfig {
    /// Execution timeout in milliseconds.
    pub timeout_ms: u64,
    /// Maximum memory the Lua VM may allocate, in bytes.
    pub memory_limit: Option<usize>,
    /// Maximum number of API calls per script execution.
    pub max_api_calls: Option<usize>,
}

impl Default for ExecutorConfig {
    /// Thirty seconds, 64 MiB and 100 API calls.
    fn default() -> (r: Self)
        ensures
            r.timeout_ms == 30000,
            r.memory_limit == Some(67108864usize),
            r.max_api_calls == Some(100usize),
    {
        ExecutorConfig { timeout_ms: 30000, memory_limit: Some(67108864), max_api_calls: Some(100) }
    }
}

impl ExecutorConfig {
    /// The limits given on the command line: the timeout in seconds and the
    /// memory limit in MiB.
    pub fn from_cli(timeout_secs: u64, memory_limit_mb: usize, max_api_calls: usize) -> (r:
        ExecutorConfig)
        requires
            timeout_secs * 1000 <= u64::MAX,
            memory_limit_mb * 1048576 <= usize::MAX,
        ensures
            r.timeout_ms == timeout_secs * 1000,
            r.memory_limit == Some((memory_limit_mb * 1048576) as usize),
            r.max_api_calls == Some(max_api_calls),
    {
        ExecutorConfig {
            timeout_ms: timeout_secs * 1000,
            memory_limit: Some(memory_limit_mb * 1048576),
            max_api_calls: Some(max_api_calls),
        }
    }

    /// The timeout of one execution: the one asked for, else the configured one.
    pub fn effective_timeout(&self, requested: Option<u64>) -> (r: u64)
        ensures
            r == match requested {
                Some(t) => t,
                None => self.timeout_ms,
            },
    {
        match requested {
            Some(t) => t,
            None => self.timeout_ms,
        }
    }
}

/// Statistics about a script execution.
#[derive(Debug, Clone, Copy, PartialEq, Eq)]
pub struct ExecutionStats {
    /// Number of API calls made during execution.
    pub api_calls: usize,
    /// Wall-clock duration in milliseconds.
    pub duration_ms: u64,
}

/// Where scripts may save files, and how much.
#[derive(Debug, Clone, PartialEq, Eq)]
pub struct OutputConfig {
    pub dir: String,
    pub max_bytes: u64,
}

} // verus!
