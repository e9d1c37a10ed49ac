//! Errors of the interest rate manager.

use vstd::prelude::*;

verus! {

/// The response of the EVM RPC canister to an `eth_*` or `request` call,
/// as the `evm_rpc_types` crate defines it; carried through unchanged.
#[verifier::external_type_specification]
#[verifier::external_body]
pub struct ExRpcError(evm_rpc_types::RpcError);

/// Reject codes of inter-canister calls (the variants of the Internet Computer's
/// `RejectionCode`).
#[derive(Clone, Copy, Debug, PartialEq, Eq, Structural)]
pub enum RejectionCode {
    /// No error
    NoError,
    /// Fatal system error
    SysFatal,
    /// Transient system error
    SysTransient,
    /// Invalid destination
    DestinationInvalid,
    /// Explicit reject by the canister
    CanisterReject,
    /// Canister error
    CanisterError,
    /// Unrecognised code
    Unknown,
}

/// An error reported by the EVM RPC canister.
///
/// The one kind that the manager inspects, an HTTP outcall rejected by the
/// Internet Computer, is held by its parts; every other kind is carried as the
/// `evm_rpc_types` value it came as.
#[derive(Debug)]
pub enum EvmRpcError {
    /// `RpcError::HttpOutcallError(HttpOutcallError::IcError { code, message })`
    IcError {
        /// Reject code of the outcall
        code: RejectionCode,
        /// Reject message of the outcall
        message: String,
    },
    /// Any other RPC error
    Other(evm_rpc_types::RpcError),
}

/// IR Manager Canister Errors
#[derive(Debug)]
pub enum ManagerError {
    /// `CallResult` error
    CallResult(RejectionCode, String),
    /// Unauthorized access
    Unauthorized,
    /// A requested value does not exist
    NonExistentValue,
    /// Wrapper for the RPC errors returned by the EVM RPC canister
    RpcResponseError(EvmRpcError),
    /// Decoding issue
    DecodingError(String),
    /// Strategy is locked
    Locked,
    /// Unknown/Custom error
    Custom(String),
    /// The cycle balance is above the threshold.
    /// No arbitrage opportunity is available.
    CyclesBalanceAboveRechargingThreshold,
    /// No consensus was reached among RPC providers
    NoConsensus,
    /// Arithmetic error
    Arithmetic(String),
}

/// IR Manager Canister Result
pub type ManagerResult<T> = Result<T, ManagerError>;

/// `true` for characters that `Debug` prints as themselves inside a string.
pub open spec fn plain_debug_char(c: char) -> bool {
    ' ' <= c <= '~' && c != '"' && c != '\\' && c != '\''
}

/// The text that `{:#?}` gives for a string made only of plain characters:
/// the string in double quotes.
pub open spec fn quoted(s: Seq<char>) -> Seq<char> {
    seq!['"'] + s + seq!['"']
}

/// `format!("{:#?}", s)` of std for a string slice. Claimed: for a string made only
/// of printable ASCII characters other than quotes and backslashes, the string in
/// double quotes. The escapes that `Debug` writes for other characters are not
/// stated.
#[verifier::external_body]
pub(crate) fn debug_text(s: &str) -> (r: String)
    ensures
        (forall|i: int| 0 <= i < s@.len() ==> plain_debug_char(#[trigger] s@[i])) ==> r@ == quoted(s@),
{
    format!("{:#?}", s)
}

/// Builds an `Arithmetic` error whose message is the `Debug` text of `s`.
pub fn arithmetic_err(s: &str) -> (e: ManagerError)
    ensures
        e matches ManagerError::Arithmetic(m) && ((forall|i: int|
            0 <= i < s@.len() ==> plain_debug_char(#[trigger] s@[i])) ==> m@ == quoted(s@)),
{
    ManagerError::Arithmetic(debug_text(s))
}

} // verus!
