use vstd::prelude::*;

verus! {

/// Why an operation of the engine was refused. Every refusal leaves the state
/// exactly as it was.
#[derive(Clone, Copy, Debug, PartialEq, Eq, Structural)]
pub enum Error {
    /// The engine was never set up.
    NotInitialized,
    /// The caller did not prove control of the identity the operation is bound to.
    Unauthorized,
    /// No record, or no aggregate, answers to what was asked for.
    NotFound,
    /// The caller is authenticated but not entitled to change this record.
    Forbidden,
}

} // verus!
