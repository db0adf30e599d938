use vstd::prelude::*;

verus! {

/// Why an operation of the exchange did not give its result.
#[derive(Clone, Copy, Debug, PartialEq, Eq, Structural)]
pub enum ShareError {
    /// The source file could not be opened or read.
    Io,
    /// The encryption tool could not be run, reported failure, or left no
    /// readable output.
    Encryption,
    /// Nothing is stored under what a request names.
    NotFound,
    /// No address at which receivers reach this host could be determined.
    AddressResolution,
}

} // verus!
