//! Types exchanged with the EVM RPC canister, and the client handle.

use vstd::prelude::*;

use crate::uint::U256;

verus! {

/// A principal (canister or user identity), held as its raw bytes.
#[derive(Debug)]
pub struct PrincipalId {
    /// The principal's bytes (at most 29)
    pub bytes: Vec<u8>,
}

impl Clone for PrincipalId {
    fn clone(&self) -> (r: PrincipalId)
        ensures
            r.bytes@ == self.bytes@,
    {
        PrincipalId { bytes: self.bytes.clone() }
    }
}

/// The bytes of the principal that `text` writes in the textual form of the
/// Internet Computer, or `None` if it is not such a text.
pub uninterp spec fn principal_text_bytes(text: Seq<char>) -> Option<Seq<u8>>;

/// `candid::Principal::from_text`. Claimed: the bytes that `principal_text_bytes`
/// names for the text, `None` exactly where it names none.
#[verifier::external_body]
pub(crate) fn principal_from_text(text: &str) -> (r: Option<PrincipalId>)
    ensures
        r is Some <==> principal_text_bytes(text@) is Some,
        r matches Some(p) ==> principal_text_bytes(text@) == Some(p.bytes@),
{
    candid::Principal::from_text(text).ok().map(|p| PrincipalId { bytes: p.as_slice().to_vec() })
}

impl PrincipalId {
    /// The anonymous principal (the single byte 4).
    pub fn anonymous() -> (r: PrincipalId)
        ensures
            r.bytes@ == seq![4u8],
    {
        PrincipalId { bytes: vec![4u8] }
    }
}

/// Handle on an EVM RPC canister.
#[derive(Debug)]
pub struct Service(pub PrincipalId);

impl Clone for Service {
    fn clone(&self) -> (r: Service)
        ensures
            r.0.bytes@ == self.0.bytes@,
    {
        Service(self.0.clone())
    }
}

impl Default for Service {
    fn default() -> (r: Service)
        ensures
            r.0.bytes@ == seq![4u8],
    {
        Service(PrincipalId::anonymous())
    }
}

/// Block selector for `eth_*` calls.
#[derive(Clone, Copy, Debug, PartialEq, Eq, Structural)]
pub enum BlockTag {
    /// Latest mined block
    Latest,
    /// Latest finalized block
    Finalized,
    /// Latest safe block
    Safe,
    /// Earliest block
    Earliest,
    /// Pending block
    Pending,
    /// A block by number
    Number(U256),
}

/// Outcome of `eth_sendRawTransaction`.
#[derive(Clone, Debug)]
pub enum SendRawTransactionStatus {
    /// Accepted; the transaction hash if the provider returned one
    Accepted(Option<String>),
    /// The sender cannot pay for the gas
    InsufficientFunds,
    /// The nonce was already used
    NonceTooLow,
    /// The nonce is ahead of the account's
    NonceTooHigh,
}

/// EIP-2930 access list
#[derive(Clone, Debug)]
pub struct AccessList(pub Vec<AccessListEntry>);

/// An entry of an EIP-2930 access list
#[derive(Clone, Debug)]
pub struct AccessListEntry {
    /// Accessed contract
    pub address: String,
    /// Accessed storage slots
    pub storage_keys: Vec<String>,
}

/// Arguments of `eth_getTransactionCount`
#[derive(Clone, Debug)]
pub struct GetTransactionCountArgs {
    /// Account
    pub address: String,
    /// Block at which to count
    pub block: BlockTag,
}

/// Consensus strategy among providers.
#[derive(Clone, Copy, Debug, PartialEq, Eq, Structural)]
pub enum ConsensusStrategy {
    /// All providers must agree
    Equality,
    /// At least `min` of `total` providers must agree
    Threshold {
        /// Number of providers asked (the canister's default where `None`)
        total: Option<u8>,
        /// Number of agreeing providers needed
        min: u8,
    },
}

/// Configuration of a multi-provider RPC call.
#[derive(Clone, Copy, Debug, PartialEq, Eq, Structural)]
pub struct RpcConfig {
    /// Expected size of the response in bytes
    pub response_size_estimate: Option<u64>,
    /// How the providers' answers are reconciled
    pub response_consensus: Option<ConsensusStrategy>,
}

/// The RPC configuration used for `eth_call` and block queries: the given response
/// size, and agreement of 2 out of 3 providers.
pub fn get_rpc_config(max_response_bytes: Option<u64>) -> (r: RpcConfig)
    ensures
        r.response_size_estimate == max_response_bytes,
        r.response_consensus == Some(ConsensusStrategy::Threshold { total: Some(3u8), min: 2u8 }),
{
    RpcConfig {
        response_size_estimate: max_response_bytes,
        response_consensus: Some(ConsensusStrategy::Threshold { total: Some(3), min: 2 }),
    }
}

/// Block tag of the block 32 blocks behind `latest`, which is taken as safe.
/// `latest` is at least 32.
pub fn safe_block_tag(latest: U256) -> (r: BlockTag)
    requires
        latest@ >= 32,
    ensures
        r matches BlockTag::Number(n) && n@ == latest@ - 32,
{
    let r = crate::uint::wrapping_sub(latest, U256::from_u64(32));
    proof {
        vstd::arithmetic::div_mod::lemma_small_mod((latest@ - 32) as nat, crate::uint::modulus() as nat);
    }
    BlockTag::Number(r)
}

} // verus!
