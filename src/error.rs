use vstd::prelude::*;

verus! {

/// Failure categories of a scan invocation.
#[derive(Debug, Clone, Copy, PartialEq, Eq, Structural)]
pub enum ScanError {
    /// A target or port specification cannot be parsed, or its start exceeds its end.
    FormatError,
    /// A hostname lookup failed.
    ResolutionError,
    /// A probe-local network error.
    ConnectError,
    /// An invalid scan configuration, such as zero parallelism.
    ConfigError,
}

} // verus!
