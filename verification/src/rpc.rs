//! Requests to the EVM RPC canister: which providers to ask, how to read the
//! answers of inter-canister calls, and when to retry a request with a larger
//! response size or another provider.

use vstd::prelude::*;
use vstd::string::{StringExecFns, StringSliceAdditionalSpecFns};
use vstd::utf8::encode_utf8;

use std::collections::VecDeque;

use crate::address::{parse_address, parsed_address, Address};
use crate::error::{EvmRpcError, ManagerError, ManagerResult, RejectionCode};
use crate::providers::{ProviderService, RpcService, RpcServices};
use crate::gas::{big_to_u128, u128_overflow_text};
use crate::uint::{base2, be_value, from_be_slice, U256};

verus! {

/// The answer of an inter-canister call: its value, or the reject code and message.
pub type CallResult<T> = Result<T, (RejectionCode, String)>;

/// Extracts the value of a canister call, or its reject as `CallResult`.
pub fn extract_call_result<T>(result: CallResult<T>) -> (r: ManagerResult<T>)
    ensures
        match result {
            Ok(v) => r == Ok::<T, ManagerError>(v),
            Err((code, message)) => (r matches Err(ManagerError::CallResult(c, m)) && c == code && m == message),
        },
{
    match result {
        Ok(v) => Ok(v),
        Err((code, message)) => Err(ManagerError::CallResult(code, message)),
    }
}

/// Fails with `Unauthorized` unless the caller is a controller of the canister.
pub fn only_controller(caller_is_controller: bool) -> (r: ManagerResult<()>)
    ensures
        caller_is_controller ==> r is Ok,
        !caller_is_controller ==> (r matches Err(e) && e is Unauthorized),
{
    if !caller_is_controller {
        return Err(ManagerError::Unauthorized);
    }
    Ok(())
}

/// Parses a hexadecimal Ethereum address, or fails with `DecodingError` carrying
/// the parser's error text.
pub fn string_to_address(input: String) -> (r: ManagerResult<Address>)
    ensures
        parsed_address(input@) matches Some((hi, lo)) ==> r == Ok::<Address, ManagerError>(Address { hi, lo }),
        parsed_address(input@) is None ==> (r matches Err(e) && e is DecodingError),
{
    match parse_address(input.as_str()) {
        Ok(a) => Ok(a),
        Err(text) => Err(ManagerError::DecodingError(text)),
    }
}

/// Converts the big-endian bytes of an arbitrary-precision natural number to a
/// `U256`; more than 32 bytes do not fit.
pub fn nat_to_u256(be_bytes: &Vec<u8>) -> (r: ManagerResult<U256>)
    ensures
        be_bytes@.len() <= 32 ==> (r matches Ok(v) && v@ == be_value(be_bytes@)),
        be_bytes@.len() > 32 ==> (r matches Err(ManagerError::DecodingError(m)) && m@
            == "The `Nat` input length exceedes 32 bytes when converted to big-endian bytes representation."@),
{
    if be_bytes.len() > 32 {
        return Err(
            ManagerError::DecodingError(
                "The `Nat` input length exceedes 32 bytes when converted to big-endian bytes representation.".to_owned(),
            ),
        );
    }
    Ok(from_be_slice(be_bytes.as_slice()))
}

/// The cycles cost that the EVM RPC canister quoted for a request, as a `u128`;
/// a cost that does not fit is an error.
pub fn cycles_cost(cost: U256) -> (r: ManagerResult<u128>)
    ensures
        cost@ < base2() ==> r == Ok::<u128, ManagerError>(cost@ as u128),
        cost@ >= base2() ==> (r matches Err(ManagerError::DecodingError(m)) && m@ == "Error converting Nat to u128: "@
            + u128_overflow_text(cost@)),
{
    match big_to_u128(cost) {
        Ok(v) => Ok(v),
        Err(text) => Err(ManagerError::DecodingError("Error converting Nat to u128: ".to_owned().concat(text.as_str()))),
    }
}

/// The providers to send multi-provider calls to: the canister's default choice
/// of main-net providers.
pub fn get_rpc_services() -> (r: RpcServices)
    ensures
        r matches RpcServices::EthMainnet(None),
{
    RpcServices::EthMainnet(None)
}

/// The single-provider services that requests rotate through, in their initial
/// order.
pub fn initial_rpc_services() -> (r: VecDeque<RpcService>)
    ensures
        r@ == seq![
            RpcService::EthMainnet(ProviderService::Alchemy),
            RpcService::EthMainnet(ProviderService::Ankr),
            RpcService::EthMainnet(ProviderService::BlockPi),
            RpcService::EthMainnet(ProviderService::Cloudflare),
            RpcService::EthMainnet(ProviderService::Llama),
            RpcService::EthMainnet(ProviderService::PublicNode),
        ],
{
    let mut r: VecDeque<RpcService> = VecDeque::new();
    r.push_back(RpcService::EthMainnet(ProviderService::Alchemy));
    r.push_back(RpcService::EthMainnet(ProviderService::Ankr));
    r.push_back(RpcService::EthMainnet(ProviderService::BlockPi));
    r.push_back(RpcService::EthMainnet(ProviderService::Cloudflare));
    r.push_back(RpcService::EthMainnet(ProviderService::Llama));
    r.push_back(RpcService::EthMainnet(ProviderService::PublicNode));
    proof {
        assert(r@ =~= seq![
            RpcService::EthMainnet(ProviderService::Alchemy),
            RpcService::EthMainnet(ProviderService::Ankr),
            RpcService::EthMainnet(ProviderService::BlockPi),
            RpcService::EthMainnet(ProviderService::Cloudflare),
            RpcService::EthMainnet(ProviderService::Llama),
            RpcService::EthMainnet(ProviderService::PublicNode),
        ]);
    }
    r
}

/// Takes the next single-provider service to send a request to: the first one,
/// which then moves to the back. The services are never all removed: the
/// queue is not empty.
pub fn get_rpc_service(services: &mut VecDeque<RpcService>) -> (r: RpcService)
    requires
        old(services)@.len() > 0,
    ensures
        r == old(services)@[0],
        final(services)@ == old(services)@.drop_first().push(old(services)@[0]),
{
    let first = services.pop_front();
    match first {
        Some(s) => {
            services.push_back(s);
            s
        },
        None => {
            proof {
                assert(false);
            }
            RpcService::Other
        },
    }
}

/// Taking `k` services moves the first `k` to the back, in order; taking as many
/// as there are brings the queue back to its order.
pub proof fn lemma_rotation_returns(services: Seq<RpcService>, k: nat)
    requires
        k <= services.len(),
    ensures
        rotate_by(services, k) == services.subrange(k as int, services.len() as int) + services.subrange(0, k as int),
        rotate_by(services, services.len()) == services,
{
    lemma_rotation_prefix(services, k);
    lemma_rotation_full(services);
}

proof fn lemma_rotation_full(services: Seq<RpcService>)
    ensures
        rotate_by(services, services.len()) == services,
{
    lemma_rotation_prefix(services, services.len());
    assert(services.subrange(services.len() as int, services.len() as int) + services.subrange(
        0,
        services.len() as int,
    ) =~= services);
}

proof fn lemma_rotation_prefix(services: Seq<RpcService>, k: nat)
    requires
        k <= services.len(),
    ensures
        rotate_by(services, k) == services.subrange(k as int, services.len() as int) + services.subrange(0, k as int),
    decreases k,
{
    if k > 0 {
        lemma_rotation_prefix(services, (k - 1) as nat);
        let prev = rotate_by(services, (k - 1) as nat);
        assert(prev[0] == services[k - 1]);
        assert(prev.drop_first().push(prev[0]) =~= services.subrange(k as int, services.len() as int)
            + services.subrange(0, k as int));
    } else {
        assert(services.subrange(0, services.len() as int) + services.subrange(0, 0) =~= services);
    }
}

/// The queue after `k` services were taken.
pub open spec fn rotate_by(services: Seq<RpcService>, k: nat) -> Seq<RpcService>
    decreases k,
{
    if k == 0 {
        services
    } else {
        let prev = rotate_by(services, (k - 1) as nat);
        prev.drop_first().push(prev[0])
    }
}

/// `needle` occurs in `hay`, byte for byte.
pub open spec fn contains_bytes(hay: Seq<u8>, needle: Seq<u8>) -> bool {
    exists|i: int| 0 <= i <= hay.len() - needle.len() && #[trigger] hay.subrange(i, i + needle.len()) == needle
}

/// Whether `needle` occurs in `hay` (as `str::contains` finds it: byte for byte).
fn contains_text(hay: &str, needle: &str) -> (r: bool)
    ensures
        r == contains_bytes(hay.spec_bytes(), needle.spec_bytes()),
{
    let h = hay.as_bytes();
    let n = needle.as_bytes();
    let hl = h.len();
    let nl = n.len();
    if nl > hl {
        return false;
    }
    let mut i: usize = 0;
    while i <= hl - nl
        invariant
            h@ == hay.spec_bytes(),
            n@ == needle.spec_bytes(),
            hl == h@.len(),
            nl == n@.len(),
            nl <= hl,
            0 <= i <= hl - nl + 1,
            forall|k: int| 0 <= k < i ==> #[trigger] h@.subrange(k, k + nl) != n@,
        decreases hl - nl + 1 - i,
    {
        let mut j: usize = 0;
        let mut same = true;
        while j < nl
            invariant
                h@ == hay.spec_bytes(),
                n@ == needle.spec_bytes(),
                hl == h@.len(),
                nl == n@.len(),
                i + nl <= hl,
                0 <= j <= nl,
                same == (forall|m: int| 0 <= m < j ==> h@[i + m] == n@[m]),
            decreases nl - j,
        {
            if h[i + j] != n[j] {
                same = false;
            }
            j = j + 1;
        }
        if same {
            proof {
                assert(h@.subrange(i as int, i + nl) =~= n@);
            }
            return true;
        }
        proof {
            assert(exists|m: int| 0 <= m < nl && h@[i + m] != n@[m]);
            let m = choose|m: int| 0 <= m < nl && h@[i + m] != n@[m];
            assert(h@.subrange(i as int, i + nl)[m] != n@[m]);
        }
        i = i + 1;
    }
    proof {
        assert forall|k: int| 0 <= k <= hl - nl implies #[trigger] h@.subrange(k, k + nl) != n@ by {}
    }
    false
}

/// An error from an HTTP outcall whose response exceeded the size the request
/// allowed: rejected as `SysFatal` with a message about a size or length limit.
pub open spec fn is_size_error(err: EvmRpcError) -> bool {
    err matches EvmRpcError::IcError { code, message } && code == RejectionCode::SysFatal && (contains_bytes(
        encode_utf8(message@),
        encode_utf8("size limit"@),
    ) || contains_bytes(encode_utf8(message@), encode_utf8("length limit"@)))
}

/// Whether the RPC error says that the response exceeded the allowed size.
pub fn is_response_size_error(err: &EvmRpcError) -> (r: bool)
    ensures
        r == is_size_error(*err),
{
    match err {
        EvmRpcError::IcError { code, message } => {
            let fatal = match code {
                RejectionCode::SysFatal => true,
                _ => false,
            };
            fatal && (contains_text(message.as_str(), "size limit") || contains_text(message.as_str(), "length limit"))
        },
        EvmRpcError::Other(_) => false,
    }
}

/// The largest response the Internet Computer lets an HTTP outcall return (2 MB);
/// requests are retried with a doubled size while below it.
pub const MAX_RESPONSE_BYTES_CEILING: u64 = 2_000_000;

/// Where a request with dynamic retries stands: the response size it allows and
/// how many times it switched provider.
#[derive(Clone, Copy, Debug, PartialEq, Eq, Structural)]
pub struct RetryState {
    /// Response size allowed to the next attempt
    pub max_response_bytes: u64,
    /// Number of provider switches so far
    pub rpc_changes: u8,
}

/// What to do after an attempt of a request with dynamic retries.
#[derive(Debug)]
pub enum RetryDecision {
    /// Stop and return this answer
    Finish(ManagerResult<String>),
    /// Try again with twice the response size
    Enlarge,
    /// Try again with the next provider
    SwitchProvider,
}

impl RetryState {
    /// The state before the first attempt.
    pub fn start(max_response_bytes: u64) -> (r: RetryState)
        ensures
            r == (RetryState { max_response_bytes, rpc_changes: 0 }),
    {
        RetryState { max_response_bytes, rpc_changes: 0 }
    }

    /// Whether an `eth_call` may be attempted: the response size is below the
    /// ceiling.
    pub fn may_call(&self) -> (r: bool)
        ensures
            r == (self.max_response_bytes < MAX_RESPONSE_BYTES_CEILING),
    {
        self.max_response_bytes < MAX_RESPONSE_BYTES_CEILING
    }

    /// Whether a `request` may be attempted: the response size is below the
    /// ceiling and fewer than three provider switches were made.
    pub fn may_request(&self) -> (r: bool)
        ensures
            r == (self.max_response_bytes < MAX_RESPONSE_BYTES_CEILING && self.rpc_changes < 3),
    {
        self.max_response_bytes < MAX_RESPONSE_BYTES_CEILING && self.rpc_changes < 3
    }

    /// After an `eth_call` attempt: a response-size error doubles the size and
    /// tries again; any other answer is returned.
    pub fn after_call(&mut self, response: ManagerResult<String>) -> (r: RetryDecision)
        requires
            old(self).max_response_bytes < MAX_RESPONSE_BYTES_CEILING,
        ensures
            (response matches Err(ManagerError::RpcResponseError(e)) && is_size_error(e)) ==> {
                &&& r is Enlarge
                &&& final(self).max_response_bytes == 2 * old(self).max_response_bytes
                &&& final(self).rpc_changes == old(self).rpc_changes
            },
            !(response matches Err(ManagerError::RpcResponseError(e)) && is_size_error(e)) ==> {
                &&& r == RetryDecision::Finish(response)
                &&& *final(self) == *old(self)
            },
    {
        if let Err(ManagerError::RpcResponseError(err)) = &response {
            if is_response_size_error(err) {
                self.max_response_bytes = self.max_response_bytes * 2;
                return RetryDecision::Enlarge;
            }
        }
        RetryDecision::Finish(response)
    }

    /// After a `request` attempt: a response-size error doubles the size and tries
    /// again; another RPC error switches to the next provider and tries again; any
    /// other answer is returned.
    pub fn after_request(&mut self, response: ManagerResult<String>) -> (r: RetryDecision)
        requires
            old(self).max_response_bytes < MAX_RESPONSE_BYTES_CEILING,
            old(self).rpc_changes < 3,
        ensures
            (response matches Err(ManagerError::RpcResponseError(e)) && is_size_error(e)) ==> {
                &&& r is Enlarge
                &&& final(self).max_response_bytes == 2 * old(self).max_response_bytes
                &&& final(self).rpc_changes == old(self).rpc_changes
            },
            (response matches Err(ManagerError::RpcResponseError(e)) && !is_size_error(e)) ==> {
                &&& r is SwitchProvider
                &&& final(self).max_response_bytes == old(self).max_response_bytes
                &&& final(self).rpc_changes == old(self).rpc_changes + 1
            },
            !(response is Err && response->Err_0 is RpcResponseError) ==> {
                &&& r == RetryDecision::Finish(response)
                &&& *final(self) == *old(self)
            },
    {
        if let Err(ManagerError::RpcResponseError(err)) = &response {
            if is_response_size_error(err) {
                self.max_response_bytes = self.max_response_bytes * 2;
                return RetryDecision::Enlarge;
            }
            self.rpc_changes = self.rpc_changes + 1;
            return RetryDecision::SwitchProvider;
        }
        RetryDecision::Finish(response)
    }
}

/// The error of a request whose retries ran out.
pub fn dynamic_retries_exhausted() -> (e: ManagerError)
    ensures
        e matches ManagerError::Custom(m) && m@ == "Request with dynamic retries reached its ceiling of 2 Megabytes."@,
{
    ManagerError::Custom("Request with dynamic retries reached its ceiling of 2 Megabytes.".to_owned())
}

/// Retries end: every retry doubles the response size or counts a provider
/// switch, so a request is attempted only finitely often.
pub proof fn lemma_retries_terminate(s: RetryState, t: RetryState)
    requires
        s.max_response_bytes > 0,
        s.max_response_bytes < MAX_RESPONSE_BYTES_CEILING,
        s.rpc_changes < 3,
        (t.max_response_bytes == 2 * s.max_response_bytes && t.rpc_changes == s.rpc_changes) || (t.max_response_bytes
            == s.max_response_bytes && t.rpc_changes == s.rpc_changes + 1),
    ensures
        retry_measure(t) < retry_measure(s),
        retry_measure(t) >= 0,
{
}

/// What is left of the retry budget: the response-size doublings still possible
/// (counted by the remaining size) and the provider switches still possible.
pub open spec fn retry_measure(s: RetryState) -> int {
    if s.max_response_bytes >= MAX_RESPONSE_BYTES_CEILING || s.rpc_changes >= 3 {
        0
    } else {
        (3 - s.rpc_changes) + 3 * (MAX_RESPONSE_BYTES_CEILING - s.max_response_bytes)
    }
}

} // verus!
