//! RPC provider reputation system.
//!
//! Every provider has a score: it gains a point for each answer that agrees with
//! the outcome and loses one for each that does not, saturating at the bounds of
//! `i64`. Requests go to the best-scored providers.

use vstd::prelude::*;
use vstd::string::StringExecFns;

use crate::constants::PROVIDER_COUNT;
use crate::error::{EvmRpcError, ManagerError, ManagerResult};
use crate::evm_rpc::SendRawTransactionStatus;
use crate::journal::{journal_secs, utc_date_time_text, JournalCollection, LogType, StableJournalCollection};
use crate::uint::{decimal_text, to_decimal_string, U256};

verus! {

/// An Ethereum main-net provider of the EVM RPC canister.
#[derive(Clone, Copy, Debug, PartialEq, Eq, Structural)]
pub enum ProviderService {
    /// Alchemy
    Alchemy,
    /// Ankr
    Ankr,
    /// BlockPi
    BlockPi,
    /// PublicNode
    PublicNode,
    /// Cloudflare
    Cloudflare,
    /// Llama
    Llama,
}

/// The provider that answered one part of a multi-provider call.
#[derive(Clone, Copy, Debug, PartialEq, Eq, Structural)]
pub enum RpcService {
    /// A main-net provider
    EthMainnet(ProviderService),
    /// Any other kind of source (custom, other chains)
    Other,
}

/// The providers that a multi-provider call was sent to.
#[derive(Clone, Debug)]
pub enum RpcServices {
    /// Main-net providers: the listed ones, or the canister's default choice
    EthMainnet(Option<Vec<ProviderService>>),
    /// Any other set of sources
    Other,
}

/// The answer of a multi-provider call.
#[derive(Debug)]
pub enum MultiRpcResult<T> {
    /// The providers agreed
    Consistent(Result<T, EvmRpcError>),
    /// The providers disagreed; each provider's answer
    Inconsistent(Vec<(RpcService, Result<T, EvmRpcError>)>),
}

/// Scores of the providers, in the order they are kept.
pub type Reputations = Vec<(i64, ProviderService)>;

/// `s + 1`, saturating at `i64::MAX`.
pub open spec fn saturating_inc(s: i64) -> i64 {
    if s == i64::MAX { s } else { (s + 1) as i64 }
}

/// `s - 1`, saturating at `i64::MIN`.
pub open spec fn saturating_dec(s: i64) -> i64 {
    if s == i64::MIN { s } else { (s - 1) as i64 }
}

/// Position of the first entry for `provider`, or `None`.
pub open spec fn position_of(reps: Seq<(i64, ProviderService)>, provider: ProviderService) -> Option<int>
    decreases reps.len(),
{
    if reps.len() == 0 {
        None
    } else if reps.last().1 == provider && !(position_of(reps.drop_last(), provider) is Some) {
        Some(reps.len() - 1)
    } else {
        position_of(reps.drop_last(), provider)
    }
}

/// The scores after one success (`up`) or failure of `provider`: the first entry
/// of the provider moves one point, the others stay; nothing changes if the
/// provider has no entry.
pub open spec fn rescore(reps: Seq<(i64, ProviderService)>, provider: ProviderService, up: bool) -> Seq<(i64, ProviderService)> {
    match position_of(reps, provider) {
        Some(i) => reps.update(
            i,
            (if up { saturating_inc(reps[i].0) } else { saturating_dec(reps[i].0) }, provider),
        ),
        None => reps,
    }
}

/// The scores after one success (`up`) or failure of each provider in turn.
pub open spec fn rescore_all(
    reps: Seq<(i64, ProviderService)>,
    providers: Seq<ProviderService>,
    up: bool,
) -> Seq<(i64, ProviderService)>
    decreases providers.len(),
{
    if providers.len() == 0 {
        reps
    } else {
        rescore(rescore_all(reps, providers.drop_last(), up), providers.last(), up)
    }
}

/// A change of score worth logging: every tenth point.
pub open spec fn is_milestone(score: i64) -> bool {
    score as int % 10 == 0
}

/// Facts about `position_of`.
proof fn lemma_position_of(reps: Seq<(i64, ProviderService)>, provider: ProviderService)
    ensures
        position_of(reps, provider) matches Some(i) ==> {
            &&& 0 <= i < reps.len()
            &&& reps[i].1 == provider
            &&& forall|j: int| 0 <= j < i ==> reps[j].1 != provider
        },
        position_of(reps, provider) is None ==> forall|j: int| 0 <= j < reps.len() ==> reps[j].1 != provider,
    decreases reps.len(),
{
    if reps.len() > 0 {
        lemma_position_of(reps.drop_last(), provider);
        let p = reps.drop_last();
        assert forall|j: int| 0 <= j < p.len() implies p[j] == reps[j] by {}
    }
}

/// Finds the first entry of `provider` in the scores, if any.
fn find_provider(reps: &Reputations, provider: ProviderService) -> (r: Option<usize>)
    ensures
        r matches Some(i) ==> position_of(reps@, provider) == Some(i as int) && i < reps@.len()
            && reps@[i as int].1 == provider,
        r is None ==> position_of(reps@, provider) is None,
{
    proof {
        lemma_position_of(reps@, provider);
    }
    let n = reps.len();
    let mut i: usize = 0;
    while i < n
        invariant
            n == reps@.len(),
            0 <= i <= n,
            forall|j: int| 0 <= j < i ==> reps@[j].1 != provider,
        decreases n - i,
    {
        if reps[i].1 == provider {
            proof {
                lemma_position_unique(reps@, provider, i as int);
            }
            return Some(i);
        }
        i = i + 1;
    }
    proof {
        if position_of(reps@, provider) is Some {
            let k = position_of(reps@, provider)->0;
            assert(reps@[k].1 == provider);
        }
    }
    None
}

/// The first entry of a provider is where `position_of` points.
proof fn lemma_position_unique(reps: Seq<(i64, ProviderService)>, provider: ProviderService, i: int)
    requires
        0 <= i < reps.len(),
        reps[i].1 == provider,
        forall|j: int| 0 <= j < i ==> reps[j].1 != provider,
    ensures
        position_of(reps, provider) == Some(i),
{
    lemma_position_of(reps, provider);
    match position_of(reps, provider) {
        Some(k) => {
            if k < i {
                assert(reps[k].1 != provider);
            } else if k > i {
                assert(reps[i].1 != provider);
            }
        },
        None => {
            assert(reps[i].1 != provider);
        },
    }
}

/// `true` when the score is a multiple of ten, the points at which a reputation
/// change is written to the journal.
pub fn is_reputation_milestone(score: i64) -> (r: bool)
    ensures
        r == is_milestone(score),
{
    if score >= 0 {
        (score as u64) % 10 == 0
    } else {
        let magnitude: u64 = if score == i64::MIN { 9_223_372_036_854_775_808u64 } else { (-score) as u64 };
        magnitude % 10 == 0
    }
}

/// Increments a provider's reputation score by 1, saturating at `i64::MAX`.
/// Returns the new score, or `None` if the provider has no entry. A new score
/// that is a multiple of ten is a change for the journal (`rescore_change`),
/// which the callers collect and `journal_reputation_changes` records.
pub fn increment_provider_score(reps: &mut Reputations, provider: ProviderService) -> (r: Option<i64>)
    ensures
        final(reps)@ == rescore(old(reps)@, provider, true),
        rescore_change(old(reps)@, provider, true) == match r {
            Some(score) => if is_milestone(score) {
                seq![ReputationChange { provider, score, increased: true }]
            } else {
                Seq::empty()
            },
            None => Seq::<ReputationChange>::empty(),
        },
        match position_of(old(reps)@, provider) {
            Some(i) => r == Some(saturating_inc(old(reps)@[i].0)),
            None => r is None,
        },
{
    match find_provider(reps, provider) {
        Some(i) => {
            let s = reps[i].0;
            let new_score = if s == i64::MAX { s } else { s + 1 };
            reps.set(i, (new_score, provider));
            Some(new_score)
        },
        None => None,
    }
}

/// Decrements a provider's reputation score by 1, saturating at `i64::MIN`.
/// Returns the new score, or `None` if the provider has no entry. A new score
/// that is a multiple of ten is a change for the journal (`rescore_change`).
pub fn decrement_provider_score(reps: &mut Reputations, provider: ProviderService) -> (r: Option<i64>)
    ensures
        final(reps)@ == rescore(old(reps)@, provider, false),
        rescore_change(old(reps)@, provider, false) == match r {
            Some(score) => if is_milestone(score) {
                seq![ReputationChange { provider, score, increased: false }]
            } else {
                Seq::empty()
            },
            None => Seq::<ReputationChange>::empty(),
        },
        match position_of(old(reps)@, provider) {
            Some(i) => r == Some(saturating_dec(old(reps)@[i].0)),
            None => r is None,
        },
{
    match find_provider(reps, provider) {
        Some(i) => {
            let s = reps[i].0;
            let new_score = if s == i64::MIN { s } else { s - 1 };
            reps.set(i, (new_score, provider));
            Some(new_score)
        },
        None => None,
    }
}

/// A change of a provider's score that the journal records.
#[derive(Clone, Copy, Debug, PartialEq, Eq, Structural)]
pub struct ReputationChange {
    /// The provider
    pub provider: ProviderService,
    /// Its new score
    pub score: i64,
    /// Whether the score went up
    pub increased: bool,
}

/// Which provider answered each part of a disagreeing call, and whether that part
/// was a success.
pub open spec fn answers<T>(responses: Seq<(RpcService, Result<T, EvmRpcError>)>) -> Seq<(RpcService, bool)> {
    responses.map_values(|x: (RpcService, Result<T, EvmRpcError>)| (x.0, x.1 is Ok))
}

/// The scores after each main-net provider of a disagreeing call moved one point
/// up for a success and one point down for a failure, in order.
pub open spec fn rescore_answers(reps: Seq<(i64, ProviderService)>, answers: Seq<(RpcService, bool)>) -> Seq<(i64, ProviderService)>
    decreases answers.len(),
{
    if answers.len() == 0 {
        reps
    } else {
        let prev = rescore_answers(reps, answers.drop_last());
        match answers.last().0 {
            RpcService::EthMainnet(p) => rescore(prev, p, answers.last().1),
            RpcService::Other => prev,
        }
    }
}

/// The change that one rescoring of `provider` records: where it has an entry
/// and its new score is a multiple of ten, that provider, score and direction;
/// otherwise nothing.
pub open spec fn rescore_change(reps: Seq<(i64, ProviderService)>, provider: ProviderService, up: bool) -> Seq<
    ReputationChange,
> {
    match position_of(reps, provider) {
        Some(i) => {
            let score = if up {
                saturating_inc(reps[i].0)
            } else {
                saturating_dec(reps[i].0)
            };
            if is_milestone(score) {
                seq![ReputationChange { provider, score, increased: up }]
            } else {
                Seq::empty()
            }
        },
        None => Seq::empty(),
    }
}

/// The changes recorded while each listed provider is rescored in turn.
pub open spec fn changes_all(reps: Seq<(i64, ProviderService)>, providers: Seq<ProviderService>, up: bool) -> Seq<
    ReputationChange,
>
    decreases providers.len(),
{
    if providers.len() == 0 {
        Seq::empty()
    } else {
        changes_all(reps, providers.drop_last(), up) + rescore_change(
            rescore_all(reps, providers.drop_last(), up),
            providers.last(),
            up,
        )
    }
}

/// The changes recorded while each main-net provider of a disagreeing call is
/// rescored by its own answer, in turn.
pub open spec fn changes_answers(reps: Seq<(i64, ProviderService)>, answers: Seq<(RpcService, bool)>) -> Seq<
    ReputationChange,
>
    decreases answers.len(),
{
    if answers.len() == 0 {
        Seq::empty()
    } else {
        let prev = changes_answers(reps, answers.drop_last());
        match answers.last().0 {
            RpcService::EthMainnet(p) => prev + rescore_change(
                rescore_answers(reps, answers.drop_last()),
                p,
                answers.last().1,
            ),
            RpcService::Other => prev,
        }
    }
}

/// The changes recorded for a consistent answer (`ok`) from the given providers.
pub open spec fn consistent_changes(reps: Seq<(i64, ProviderService)>, providers: RpcServices, ok: bool) -> Seq<
    ReputationChange,
> {
    match providers {
        RpcServices::EthMainnet(Some(list)) => changes_all(reps, list@, ok),
        _ => Seq::empty(),
    }
}

/// Moves the score of each listed provider one point (up for `up`), in order,
/// recording the changes that reach a multiple of ten.
fn rescore_providers(
    reps: &mut Reputations,
    providers: &Vec<ProviderService>,
    up: bool,
    changes: &mut Vec<ReputationChange>,
)
    ensures
        final(reps)@ == rescore_all(old(reps)@, providers@, up),
        final(changes)@ == old(changes)@ + changes_all(old(reps)@, providers@, up),
        final(changes)@.subrange(0, old(changes)@.len() as int) == old(changes)@,
        forall|k: int|
            old(changes)@.len() <= k < final(changes)@.len() ==> is_milestone(#[trigger] final(changes)@[k].score),
{
    let n = providers.len();
    for i in 0..n
        invariant
            n == providers@.len(),
            reps@ == rescore_all(old(reps)@, providers@.subrange(0, i as int), up),
            changes@ == old(changes)@ + changes_all(old(reps)@, providers@.subrange(0, i as int), up),
            old(changes)@.len() <= changes@.len(),
            changes@.subrange(0, old(changes)@.len() as int) == old(changes)@,
            forall|k: int| old(changes)@.len() <= k < changes@.len() ==> is_milestone(#[trigger] changes@[k].score),
    {
        proof {
            assert(providers@.subrange(0, i + 1).drop_last() =~= providers@.subrange(0, i as int));
            assert(providers@.subrange(0, i + 1).last() == providers@[i as int]);
        }
        let p = providers[i];
        let ghost before = changes@;
        let changed = if up {
            increment_provider_score(reps, p)
        } else {
            decrement_provider_score(reps, p)
        };
        if let Some(score) = changed {
            if is_reputation_milestone(score) {
                changes.push(ReputationChange { provider: p, score, increased: up });
            }
        }
        proof {
            assert(changes@.subrange(0, old(changes)@.len() as int) =~= old(changes)@);
            assert(changes@ =~= before + rescore_change(
                rescore_all(old(reps)@, providers@.subrange(0, i as int), up),
                p,
                up,
            ));
        }
    }
    proof {
        assert(providers@.subrange(0, n as int) =~= providers@);
    }
}

/// Moves the score of each main-net provider of a disagreeing call one point, up
/// for a success and down for a failure, in order, recording the changes that
/// reach a multiple of ten.
fn rescore_outcomes(reps: &mut Reputations, outcomes: &Vec<(RpcService, bool)>, changes: &mut Vec<ReputationChange>)
    ensures
        final(reps)@ == rescore_answers(old(reps)@, outcomes@),
        final(changes)@ == old(changes)@ + changes_answers(old(reps)@, outcomes@),
        final(changes)@.subrange(0, old(changes)@.len() as int) == old(changes)@,
        forall|k: int|
            old(changes)@.len() <= k < final(changes)@.len() ==> is_milestone(#[trigger] final(changes)@[k].score),
{
    let n = outcomes.len();
    for i in 0..n
        invariant
            n == outcomes@.len(),
            reps@ == rescore_answers(old(reps)@, outcomes@.subrange(0, i as int)),
            changes@ == old(changes)@ + changes_answers(old(reps)@, outcomes@.subrange(0, i as int)),
            old(changes)@.len() <= changes@.len(),
            changes@.subrange(0, old(changes)@.len() as int) == old(changes)@,
            forall|k: int| old(changes)@.len() <= k < changes@.len() ==> is_milestone(#[trigger] changes@[k].score),
    {
        proof {
            assert(outcomes@.subrange(0, i + 1).drop_last() =~= outcomes@.subrange(0, i as int));
            assert(outcomes@.subrange(0, i + 1).last() == outcomes@[i as int]);
        }
        let (service, ok) = outcomes[i];
        let ghost before = changes@;
        match service {
            RpcService::EthMainnet(p) => {
                let changed = if ok {
                    increment_provider_score(reps, p)
                } else {
                    decrement_provider_score(reps, p)
                };
                if let Some(score) = changed {
                    if is_reputation_milestone(score) {
                        changes.push(ReputationChange { provider: p, score, increased: ok });
                    }
                }
            },
            RpcService::Other => {},
        }
        proof {
            assert(changes@.subrange(0, old(changes)@.len() as int) =~= old(changes)@);
            match service {
                RpcService::EthMainnet(p) => {
                    assert(changes@ =~= before + rescore_change(
                        rescore_answers(old(reps)@, outcomes@.subrange(0, i as int)),
                        p,
                        ok,
                    ));
                },
                RpcService::Other => {
                    assert(changes@ =~= before);
                },
            }
        }
    }
    proof {
        assert(outcomes@.subrange(0, n as int) =~= outcomes@);
    }
}

/// Which provider answered each part, and whether it succeeded.
fn summarize<T>(responses: &Vec<(RpcService, Result<T, EvmRpcError>)>) -> (r: Vec<(RpcService, bool)>)
    ensures
        r@ == answers(responses@),
{
    let mut r: Vec<(RpcService, bool)> = Vec::new();
    let n = responses.len();
    for i in 0..n
        invariant
            n == responses@.len(),
            r@ == answers(responses@.subrange(0, i as int)),
    {
        let ok = responses[i].1.is_ok();
        r.push((responses[i].0, ok));
        proof {
            assert(answers(responses@.subrange(0, i + 1)) =~= answers(responses@.subrange(0, i as int)).push(
                (responses@[i as int].0, responses@[i as int].1 is Ok),
            ));
        }
    }
    proof {
        assert(responses@.subrange(0, n as int) =~= responses@);
    }
    r
}

/// The scores after a consistent answer (`ok`) from the given providers, or
/// `None` where the providers are the canister's default choice.
pub open spec fn consistent_rescore(
    reps: Seq<(i64, ProviderService)>,
    providers: RpcServices,
    ok: bool,
) -> Option<Seq<(i64, ProviderService)>> {
    match providers {
        RpcServices::EthMainnet(Some(list)) => Some(rescore_all(reps, list@, ok)),
        RpcServices::EthMainnet(None) => None,
        RpcServices::Other => Some(reps),
    }
}

/// Processes a multi-provider result and updates the provider reputations.
///
/// - Consistent answer: every listed provider gains a point (success) or loses
///   one (failure), and the answer is returned, a failure as `RpcResponseError`.
///   If the providers were the canister's default choice (not listed), the call
///   fails with `NonExistentValue` and no score changes.
/// - Inconsistent answers: each main-net provider gains or loses a point by its
///   own answer, and the call fails with `NoConsensus`.
///
/// Exactly the score changes that reach a multiple of ten are appended to
/// `changes`, in the order of the rescorings.
pub fn extract_multi_rpc_result<T>(
    reps: &mut Reputations,
    providers: RpcServices,
    result: MultiRpcResult<T>,
    changes: &mut Vec<ReputationChange>,
) -> (r: ManagerResult<T>)
    ensures
        final(changes)@ == old(changes)@ + match result {
            MultiRpcResult::Consistent(response) => consistent_changes(old(reps)@, providers, response is Ok),
            MultiRpcResult::Inconsistent(responses) => changes_answers(old(reps)@, answers(responses@)),
        },
        final(changes)@.subrange(0, old(changes)@.len() as int) == old(changes)@,
        forall|k: int|
            old(changes)@.len() <= k < final(changes)@.len() ==> is_milestone(#[trigger] final(changes)@[k].score),
        match result {
            MultiRpcResult::Consistent(response) => match consistent_rescore(old(reps)@, providers, response is Ok) {
                None => (r matches Err(e) && e is NonExistentValue) && final(reps)@ == old(reps)@,
                Some(after) => final(reps)@ == after && match response {
                    Ok(v) => r == Ok::<T, ManagerError>(v),
                    Err(e) => (r matches Err(ManagerError::RpcResponseError(e2)) && e2 == e),
                },
            },
            MultiRpcResult::Inconsistent(responses) => {
                &&& final(reps)@ == rescore_answers(old(reps)@, answers(responses@))
                &&& r matches Err(e) && e is NoConsensus
            },
        },
{
    match result {
        MultiRpcResult::Consistent(response) => {
            let ok = response.is_ok();
            match providers {
                RpcServices::EthMainnet(services) => {
                    let list = match services {
                        Some(list) => list,
                        None => return Err(ManagerError::NonExistentValue),
                    };
                    rescore_providers(reps, &list, ok, changes);
                },
                RpcServices::Other => {},
            }
            match response {
                Ok(v) => Ok(v),
                Err(e) => Err(ManagerError::RpcResponseError(e)),
            }
        },
        MultiRpcResult::Inconsistent(responses) => {
            let outcomes = summarize(&responses);
            rescore_outcomes(reps, &outcomes, changes);
            Err(ManagerError::NoConsensus)
        },
    }
}

/// An answer to `eth_sendRawTransaction` that settles the outcome of a
/// disagreeing call: a success other than `InsufficientFunds`.
pub open spec fn is_decisive_status(r: Result<SendRawTransactionStatus, EvmRpcError>) -> bool {
    r matches Ok(s) && !(s is InsufficientFunds)
}

/// Processes the answers to `eth_sendRawTransaction` and updates the provider
/// reputations.
///
/// A consistent answer is handled as by `extract_multi_rpc_result`. Of disagreeing
/// answers, the first that reports a nonce problem or an accepted transaction is
/// returned as it is, and no score changes; if there is none, it is handled as by
/// `extract_multi_rpc_result` (each provider gains or loses a point, `NoConsensus`).
/// Exactly the score changes that reach a multiple of ten are appended to
/// `changes`, in order.
pub fn extract_multi_rpc_send_raw_transaction_status(
    reps: &mut Reputations,
    providers: RpcServices,
    result: MultiRpcResult<SendRawTransactionStatus>,
    changes: &mut Vec<ReputationChange>,
) -> (r: ManagerResult<SendRawTransactionStatus>)
    ensures
        final(changes)@.subrange(0, old(changes)@.len() as int) == old(changes)@,
        result matches MultiRpcResult::Consistent(response) ==> final(changes)@ == old(changes)@ + consistent_changes(
            old(reps)@,
            providers,
            response is Ok,
        ),
        forall|k: int|
            old(changes)@.len() <= k < final(changes)@.len() ==> is_milestone(#[trigger] final(changes)@[k].score),
        match result {
            MultiRpcResult::Consistent(response) => match consistent_rescore(old(reps)@, providers, response is Ok) {
                None => (r matches Err(e) && e is NonExistentValue) && final(reps)@ == old(reps)@,
                Some(after) => final(reps)@ == after && match response {
                    Ok(v) => r == Ok::<SendRawTransactionStatus, ManagerError>(v),
                    Err(e) => (r matches Err(ManagerError::RpcResponseError(e2)) && e2 == e),
                },
            },
            MultiRpcResult::Inconsistent(responses) => if exists|i: int|
                0 <= i < responses@.len() && is_decisive_status(#[trigger] responses@[i].1) {
                exists|i: int|
                    {
                        &&& 0 <= i < responses@.len()
                        &&& is_decisive_status(#[trigger] responses@[i].1)
                        &&& forall|j: int| 0 <= j < i ==> !is_decisive_status(#[trigger] responses@[j].1)
                        &&& r == Ok::<SendRawTransactionStatus, ManagerError>(responses@[i].1->Ok_0)
                        &&& final(reps)@ == old(reps)@
                        &&& final(changes)@ == old(changes)@
                    }
            } else {
                &&& final(reps)@ == rescore_answers(old(reps)@, answers(responses@))
                &&& final(changes)@ == old(changes)@ + changes_answers(old(reps)@, answers(responses@))
                &&& r matches Err(e) && e is NoConsensus
            },
        },
{
    match result {
        MultiRpcResult::Consistent(response) => extract_multi_rpc_result(
            reps,
            providers,
            MultiRpcResult::Consistent(response),
            changes,
        ),
        MultiRpcResult::Inconsistent(responses) => match first_decisive_answer(&responses) {
            Some(i) => {
                let mut responses = responses;
                let (_, answer) = responses.remove(i);
                match answer {
                    Ok(status) => Ok(status),
                    Err(e) => Err(ManagerError::RpcResponseError(e)),
                }
            },
            None => extract_multi_rpc_result(reps, providers, MultiRpcResult::Inconsistent(responses), changes),
        },
    }
}

/// The answers to `eth_sendRawTransaction` that settle a disagreeing call are
/// exactly the accepted transactions and the nonce reports; a failed call and a
/// report of insufficient funds settle nothing.
pub proof fn lemma_decisive_answers(r: Result<SendRawTransactionStatus, EvmRpcError>)
    ensures
        is_decisive_status(r) <==> (r matches Ok(SendRawTransactionStatus::Accepted(_)) || r matches Ok(
            SendRawTransactionStatus::NonceTooLow,
        ) || r matches Ok(SendRawTransactionStatus::NonceTooHigh)),
{
}

/// Of disagreeing answers, an accepted transaction or a nonce report preceded only
/// by failed calls and reports of insufficient funds, is the answer returned, with
/// no score changed and no change recorded.
pub proof fn lemma_first_settling_answer_wins(
    responses: Seq<(RpcService, Result<SendRawTransactionStatus, EvmRpcError>)>,
    i: int,
)
    requires
        0 <= i < responses.len(),
        responses[i].1 matches Ok(SendRawTransactionStatus::Accepted(_)) || responses[i].1 matches Ok(
            SendRawTransactionStatus::NonceTooLow,
        ) || responses[i].1 matches Ok(SendRawTransactionStatus::NonceTooHigh),
        forall|j: int|
            0 <= j < i ==> (#[trigger] responses[j].1 is Err || responses[j].1 == Ok::<
                SendRawTransactionStatus,
                EvmRpcError,
            >(SendRawTransactionStatus::InsufficientFunds)),
    ensures
        is_decisive_status(responses[i].1),
        forall|j: int| 0 <= j < i ==> !is_decisive_status(#[trigger] responses[j].1),
        exists|k: int| 0 <= k < responses.len() && is_decisive_status(#[trigger] responses[k].1),
{
    assert forall|j: int| 0 <= j < i implies !is_decisive_status(#[trigger] responses[j].1) by {
        if responses[j].1 is Ok {
            assert(responses[j].1 == Ok::<SendRawTransactionStatus, EvmRpcError>(
                SendRawTransactionStatus::InsufficientFunds,
            ));
        }
    }
}

/// Position of the first decisive answer, if any.
fn first_decisive_answer(responses: &Vec<(RpcService, Result<SendRawTransactionStatus, EvmRpcError>)>) -> (r: Option<
    usize,
>)
    ensures
        r matches Some(i) ==> {
            &&& i < responses@.len()
            &&& is_decisive_status(responses@[i as int].1)
            &&& forall|j: int| 0 <= j < i ==> !is_decisive_status(#[trigger] responses@[j].1)
        },
        r is None ==> forall|j: int| 0 <= j < responses@.len() ==> !is_decisive_status(#[trigger] responses@[j].1),
{
    let n = responses.len();
    let mut i: usize = 0;
    while i < n
        invariant
            n == responses@.len(),
            0 <= i <= n,
            forall|j: int| 0 <= j < i ==> !is_decisive_status(#[trigger] responses@[j].1),
        decreases n - i,
    {
        let decisive = match &responses[i].1 {
            Ok(SendRawTransactionStatus::InsufficientFunds) => false,
            Ok(_) => true,
            Err(_) => false,
        };
        if decisive {
            return Some(i);
        }
        i = i + 1;
    }
    None
}

/// `sorted` with `x` placed after every entry from the back that scores at least
/// as much as `x`: one step of a stable sort by descending score.
pub open spec fn insert_desc(sorted: Seq<(i64, ProviderService)>, x: (i64, ProviderService)) -> Seq<(i64, ProviderService)>
    decreases sorted.len(),
{
    if sorted.len() == 0 {
        seq![x]
    } else if sorted.last().0 >= x.0 {
        sorted.push(x)
    } else {
        insert_desc(sorted.drop_last(), x).push(sorted.last())
    }
}

/// The scores stably sorted by descending score: entries with equal scores keep
/// their order.
pub open spec fn sort_desc(reps: Seq<(i64, ProviderService)>) -> Seq<(i64, ProviderService)>
    decreases reps.len(),
{
    if reps.len() == 0 {
        reps
    } else {
        insert_desc(sort_desc(reps.drop_last()), reps.last())
    }
}

/// How many providers are handed out when `n` providers are scored.
pub open spec fn ranked_count(n: nat) -> nat {
    if n < PROVIDER_COUNT {
        n
    } else {
        PROVIDER_COUNT as nat
    }
}

/// The providers of the scored entries, in order.
pub open spec fn providers_of(entries: Seq<(i64, ProviderService)>) -> Seq<ProviderService> {
    entries.map_values(|e: (i64, ProviderService)| e.1)
}

/// The ranked providers for the given scores: the first `PROVIDER_COUNT` of the
/// scores sorted by descending score. A provider one point behind the last one
/// taken is thereby taken too while there is room, each provider once.
pub open spec fn ranked(reps: Seq<(i64, ProviderService)>) -> Seq<ProviderService> {
    providers_of(sort_desc(reps).take(ranked_count(reps.len()) as int))
}

/// Sorted by descending score.
pub open spec fn is_sorted_desc(s: Seq<(i64, ProviderService)>) -> bool {
    forall|a: int, b: int| 0 <= a <= b < s.len() ==> s[a].0 >= s[b].0
}

/// `insert_desc` places `x` at the position after the last entry, from the back,
/// that scores at least as much.
proof fn lemma_insert_desc_at(s: Seq<(i64, ProviderService)>, x: (i64, ProviderService), j: int)
    requires
        0 <= j <= s.len(),
        forall|k: int| j <= k < s.len() ==> s[k].0 < x.0,
        j > 0 ==> s[j - 1].0 >= x.0,
    ensures
        insert_desc(s, x) == s.insert(j, x),
    decreases s.len(),
{
    if s.len() == 0 {
        assert(s.insert(j, x) =~= seq![x]);
    } else if j == s.len() {
        assert(s.insert(j, x) =~= s.push(x));
    } else {
        let t = s.drop_last();
        lemma_insert_desc_at(t, x, j);
        assert(s.insert(j, x) =~= t.insert(j, x).push(s.last()));
    }
}

/// Where `insert_desc` puts `x`: after the last entry, from the back, that
/// scores at least as much.
spec fn insert_point(s: Seq<(i64, ProviderService)>, x: (i64, ProviderService)) -> int
    decreases s.len(),
{
    if s.len() == 0 {
        0
    } else if s.last().0 >= x.0 {
        s.len() as int
    } else {
        insert_point(s.drop_last(), x)
    }
}

proof fn lemma_insert_point(s: Seq<(i64, ProviderService)>, x: (i64, ProviderService))
    ensures
        0 <= insert_point(s, x) <= s.len(),
        forall|k: int| insert_point(s, x) <= k < s.len() ==> s[k].0 < x.0,
        insert_point(s, x) > 0 ==> s[insert_point(s, x) - 1].0 >= x.0,
    decreases s.len(),
{
    if s.len() > 0 && s.last().0 < x.0 {
        let t = s.drop_last();
        lemma_insert_point(t, x);
        assert forall|k: int| insert_point(s, x) <= k < s.len() implies s[k].0 < x.0 by {
            if k < t.len() {
                assert(s[k] == t[k]);
            }
        }
    }
}

/// `insert_desc` keeps a sorted sequence sorted and adds exactly `x`.
proof fn lemma_insert_desc_sorted(s: Seq<(i64, ProviderService)>, x: (i64, ProviderService))
    requires
        is_sorted_desc(s),
    ensures
        is_sorted_desc(insert_desc(s, x)),
        insert_desc(s, x).to_multiset() == s.to_multiset().insert(x),
{
    let j = insert_point(s, x);
    lemma_insert_point(s, x);
    lemma_insert_desc_at(s, x, j);
    let r = s.insert(j, x);
    s.insert_ensures(j, x);
    assert forall|a: int, b: int| 0 <= a <= b < r.len() implies r[a].0 >= r[b].0 by {
        if a < j && b < j {
        } else if a < j && b == j {
            assert(s[a].0 >= s[j - 1].0);
        } else if a < j {
            assert(s[a].0 >= s[b - 1].0);
        } else if a == j && b > j {
            assert(r[b] == s[b - 1]);
        } else if a > j {
            assert(r[a] == s[a - 1] && r[b] == s[b - 1]);
        }
    }
    vstd::seq_lib::to_multiset_insert(s, j, x);
}

/// `sort_desc` sorts and keeps every entry.
proof fn lemma_sort_desc(reps: Seq<(i64, ProviderService)>)
    ensures
        is_sorted_desc(sort_desc(reps)),
        sort_desc(reps).to_multiset() == reps.to_multiset(),
        sort_desc(reps).len() == reps.len(),
    decreases reps.len(),
{
    broadcast use vstd::multiset::group_multiset_axioms;
    if reps.len() == 0 {
    } else {
        let t = reps.drop_last();
        lemma_sort_desc(t);
        lemma_insert_desc_sorted(sort_desc(t), reps.last());
        broadcast use vstd::seq_lib::group_to_multiset_ensures;
        assert(reps =~= t.push(reps.last()));
        assert(sort_desc(reps).len() == sort_desc(reps).to_multiset().len());
        assert(reps.len() == reps.to_multiset().len());
    }
}

/// `sort_desc` keeps exactly the entries it is given, and with them a set of
/// providers that holds no provider twice.
proof fn lemma_sort_desc_members(reps: Seq<(i64, ProviderService)>)
    ensures
        forall|e: (i64, ProviderService)| sort_desc(reps).contains(e) <==> reps.contains(e),
        sort_desc(reps).len() == reps.len(),
        providers_of(reps).no_duplicates() ==> providers_of(sort_desc(reps)).no_duplicates(),
    decreases reps.len(),
{
    if reps.len() > 0 {
        let t = reps.drop_last();
        let x = reps.last();
        lemma_sort_desc_members(t);
        let s = sort_desc(t);
        let j = insert_point(s, x);
        lemma_insert_point(s, x);
        lemma_insert_desc_at(s, x, j);
        let r = s.insert(j, x);
        s.insert_ensures(j, x);
        assert(sort_desc(reps) == r);
        assert(reps =~= t.push(x));
        assert forall|e: (i64, ProviderService)| r.contains(e) <==> reps.contains(e) by {
            if r.contains(e) {
                let q = choose|q: int| 0 <= q < r.len() && r[q] == e;
                if q < j {
                    assert(s.contains(s[q]));
                    assert(t.contains(e));
                    let k = choose|k: int| 0 <= k < t.len() && t[k] == e;
                    assert(reps[k] == e);
                } else if q == j {
                    assert(reps[reps.len() - 1] == e);
                } else {
                    assert(r[q] == s[q - 1]);
                    assert(s.contains(s[q - 1]));
                    assert(t.contains(e));
                    let k = choose|k: int| 0 <= k < t.len() && t[k] == e;
                    assert(reps[k] == e);
                }
            }
            if reps.contains(e) {
                let k = choose|k: int| 0 <= k < reps.len() && reps[k] == e;
                if k == reps.len() - 1 {
                    assert(r[j] == e);
                } else {
                    assert(t[k] == e);
                    assert(t.contains(e));
                    assert(s.contains(e));
                    let q = choose|q: int| 0 <= q < s.len() && s[q] == e;
                    if q < j {
                        assert(r[q] == e);
                    } else {
                        assert(r[q + 1] == e);
                    }
                }
            }
        }
        if providers_of(reps).no_duplicates() {
            assert forall|a: int, b: int| 0 <= a < t.len() && 0 <= b < t.len() && a != b implies providers_of(
                t,
            )[a] != providers_of(t)[b] by {
                assert(providers_of(reps)[a] != providers_of(reps)[b]);
            }
            assert(providers_of(t).no_duplicates());
            assert forall|q: int| 0 <= q < s.len() implies s[q].1 != x.1 by {
                assert(s.contains(s[q]));
                assert(t.contains(s[q]));
                let k = choose|k: int| 0 <= k < t.len() && t[k] == s[q];
                assert(providers_of(reps)[k] != providers_of(reps)[reps.len() - 1]);
            }
            let pr = providers_of(r);
            assert forall|a: int, b: int| 0 <= a < pr.len() && 0 <= b < pr.len() && a != b implies pr[a]
                != pr[b] by {
                let ia = if a < j {
                    a
                } else {
                    a - 1
                };
                let ib = if b < j {
                    b
                } else {
                    b - 1
                };
                if a != j && b != j {
                    assert(r[a] == s[ia] && r[b] == s[ib]);
                    assert(providers_of(s)[ia] != providers_of(s)[ib]);
                } else if a == j {
                    assert(r[b] == s[ib]);
                } else {
                    assert(r[a] == s[ia]);
                }
            }
        }
    }
}

/// The scores, stably sorted by descending score (entries with equal scores keep
/// their order).
fn sorted_by_score(reps: &Reputations) -> (r: Reputations)
    ensures
        r@ == sort_desc(reps@),
{
    let mut sorted: Reputations = Vec::new();
    let n = reps.len();
    for i in 0..n
        invariant
            n == reps@.len(),
            sorted@ == sort_desc(reps@.subrange(0, i as int)),
    {
        let x = reps[i];
        let mut j = sorted.len();
        while j > 0 && sorted[j - 1].0 < x.0
            invariant
                0 <= j <= sorted@.len(),
                forall|k: int| j <= k < sorted@.len() ==> sorted@[k].0 < x.0,
            decreases j,
        {
            j = j - 1;
        }
        proof {
            lemma_insert_desc_at(sorted@, x, j as int);
            let prefix = reps@.subrange(0, i + 1);
            assert(prefix.drop_last() =~= reps@.subrange(0, i as int));
            assert(prefix.last() == x);
        }
        sorted.insert(j, x);
    }
    proof {
        assert(reps@.subrange(0, n as int) =~= reps@);
    }
    sorted
}

/// Picks the ranked providers from scores sorted by descending score: the
/// first `PROVIDER_COUNT` of them, in order.
fn pick_providers(sorted: &Reputations) -> (r: Vec<ProviderService>)
    ensures
        r@ == providers_of(sorted@.take(ranked_count(sorted@.len()) as int)),
{
    let limit = PROVIDER_COUNT as usize;
    let mut result: Vec<ProviderService> = Vec::new();
    let n = sorted.len();
    let mut i: usize = 0;
    while i < n && i < limit
        invariant
            n == sorted@.len(),
            limit == PROVIDER_COUNT,
            i <= n,
            i <= limit,
            result@ == providers_of(sorted@.take(i as int)),
        decreases n - i,
    {
        result.push(sorted[i].1);
        proof {
            assert(providers_of(sorted@.take(i + 1)) =~= providers_of(sorted@.take(i as int)).push(
                sorted@[i as int].1,
            ));
        }
        i = i + 1;
    }
    result
}

/// Computes the top-ranked providers from their scores.
///
/// The scores are sorted by descending score (stably: equal scores keep their
/// order), and the first `PROVIDER_COUNT` providers are taken, a provider one
/// point behind among them. Where no provider is scored twice, none is handed out
/// twice, and none left out scores higher than one handed out.
pub fn ranked_provider_list(reps: &Reputations) -> (r: Vec<ProviderService>)
    ensures
        r@ == ranked(reps@),
        r@.len() == ranked_count(reps@.len()),
        providers_of(reps@).no_duplicates() ==> r@.no_duplicates(),
        providers_of(reps@).no_duplicates() ==> forall|k: int, m: int|
            0 <= k < reps@.len() && 0 <= m < reps@.len() && !r@.contains(#[trigger] reps@[k].1) && r@.contains(
                #[trigger] reps@[m].1,
            ) ==> reps@[k].0 <= reps@[m].0,
{
    let sorted = sorted_by_score(reps);
    let r = pick_providers(&sorted);
    proof {
        lemma_ranked_top(reps@);
        lemma_sort_desc_members(reps@);
        assert(sorted@.len() == reps@.len());
    }
    r
}

/// The ranked providers, as the set of main-net providers to send a call to.
pub fn get_ranked_rpc_providers(reps: &Reputations) -> (r: RpcServices)
    ensures
        r matches RpcServices::EthMainnet(Some(list)) && list@ == ranked(reps@),
{
    RpcServices::EthMainnet(Some(ranked_provider_list(reps)))
}

/// The single best-ranked provider, as the set of providers to send a call to.
/// There must be at least one provider to pick.
pub fn get_ranked_rpc_provider(reps: &Reputations) -> (r: RpcServices)
    requires
        reps@.len() > 0,
    ensures
        r matches RpcServices::EthMainnet(Some(list)) && list@ == ranked(reps@).take(1),
        r matches RpcServices::EthMainnet(Some(list)) && list@.len() == 1,
{
    let list = ranked_provider_list(reps);
    let mut top: Vec<ProviderService> = Vec::new();
    top.push(list[0]);
    proof {
        assert(top@ =~= ranked(reps@).take(1));
    }
    RpcServices::EthMainnet(Some(top))
}

/// The ranking hands out `PROVIDER_COUNT` providers, or every provider where
/// there are fewer, first one with the highest score. Where no provider is
/// scored twice, it hands out none twice, and no provider left out scores higher
/// than one handed out.
pub proof fn lemma_ranked_top(reps: Seq<(i64, ProviderService)>)
    ensures
        ranked(reps).len() == ranked_count(reps.len()),
        ranked(reps).len() <= PROVIDER_COUNT,
        reps.len() > 0 ==> ranked(reps).len() >= 1 && exists|m: int|
            0 <= m < reps.len() && #[trigger] reps[m].1 == ranked(reps)[0] && forall|k: int|
                0 <= k < reps.len() ==> reps[m].0 >= #[trigger] reps[k].0,
        providers_of(reps).no_duplicates() ==> ranked(reps).no_duplicates(),
        providers_of(reps).no_duplicates() ==> forall|k: int, m: int|
            0 <= k < reps.len() && 0 <= m < reps.len() && !ranked(reps).contains(#[trigger] reps[k].1)
                && ranked(reps).contains(#[trigger] reps[m].1) ==> reps[k].0 <= reps[m].0,
{
    lemma_sort_desc(reps);
    lemma_sort_desc_members(reps);
    let s = sort_desc(reps);
    let n = ranked_count(reps.len()) as int;
    let r = ranked(reps);
    assert(r.len() == n);
    if reps.len() > 0 {
        assert(s.contains(s[0]));
        assert(reps.contains(s[0]));
        let m = choose|m: int| 0 <= m < reps.len() && reps[m] == s[0];
        assert(reps[m] == s[0]);
        assert forall|k: int| 0 <= k < reps.len() implies reps[m].0 >= #[trigger] reps[k].0 by {
            assert(reps.contains(reps[k]));
            assert(s.contains(reps[k]));
            let q = choose|q: int| 0 <= q < s.len() && s[q] == reps[k];
            assert(s[q] == reps[k]);
            assert(s[0].0 >= s[q].0);
        }
        assert(s.take(n)[0] == s[0]);
        assert(r[0] == s[0].1);
        assert(reps[m].1 == r[0]);
    }
    if providers_of(reps).no_duplicates() {
        assert forall|a: int, b: int| 0 <= a < r.len() && 0 <= b < r.len() && a != b implies r[a] != r[b] by {
            assert(r[a] == providers_of(s)[a] && r[b] == providers_of(s)[b]);
        }
        assert forall|k: int, m: int|
            0 <= k < reps.len() && 0 <= m < reps.len() && !r.contains(#[trigger] reps[k].1) && r.contains(
                #[trigger] reps[m].1,
            ) implies reps[k].0 <= reps[m].0 by {
            assert(reps.contains(reps[k]));
            assert(s.contains(reps[k]));
            let q = choose|q: int| 0 <= q < s.len() && s[q] == reps[k];
            if q < n {
                assert(r[q] == reps[k].1);
            }
            let a = choose|a: int| 0 <= a < r.len() && r[a] == reps[m].1;
            assert(r[a] == s[a].1);
            assert(s.contains(s[a]));
            assert(reps.contains(s[a]));
            let m2 = choose|m2: int| 0 <= m2 < reps.len() && reps[m2] == s[a];
            if m2 != m {
                assert(providers_of(reps)[m2] != providers_of(reps)[m]);
            }
            assert(s[a].0 >= s[q].0);
        }
    }
}

/// A success and then a failure of the same provider leave the scores as they
/// were, unless the success met the upper bound of the score.
pub proof fn lemma_increment_then_decrement(reps: Seq<(i64, ProviderService)>, provider: ProviderService)
    requires
        position_of(reps, provider) matches Some(i) ==> reps[i].0 < i64::MAX,
    ensures
        rescore(rescore(reps, provider, true), provider, false) == reps,
{
    lemma_position_of(reps, provider);
    match position_of(reps, provider) {
        Some(i) => {
            let up = rescore(reps, provider, true);
            lemma_position_unique(up, provider, i);
            assert(up.update(i, (saturating_dec(up[i].0), provider)) =~= reps);
        },
        None => {},
    }
}

/// A failure and then a success of the same provider leave the scores as they
/// were, unless the failure met the lower bound of the score.
pub proof fn lemma_decrement_then_increment(reps: Seq<(i64, ProviderService)>, provider: ProviderService)
    requires
        position_of(reps, provider) matches Some(i) ==> reps[i].0 > i64::MIN,
    ensures
        rescore(rescore(reps, provider, false), provider, true) == reps,
{
    lemma_position_of(reps, provider);
    match position_of(reps, provider) {
        Some(i) => {
            let down = rescore(reps, provider, false);
            lemma_position_unique(down, provider, i);
            assert(down.update(i, (saturating_inc(down[i].0), provider)) =~= reps);
        },
        None => {},
    }
}

/// Moving a provider's score never changes which providers have entries, nor
/// the score of any other entry.
pub proof fn lemma_rescore_frame(reps: Seq<(i64, ProviderService)>, provider: ProviderService, up: bool)
    ensures
        rescore(reps, provider, up).len() == reps.len(),
        forall|k: int| 0 <= k < reps.len() ==> (#[trigger] rescore(reps, provider, up)[k]).1 == reps[k].1,
        forall|k: int|
            0 <= k < reps.len() && position_of(reps, provider) != Some(k) ==> #[trigger] rescore(reps, provider, up)[k]
                == reps[k],
{
    lemma_position_of(reps, provider);
}

/// The name of a provider, as `{:#?}` prints it.
pub open spec fn provider_name(p: ProviderService) -> Seq<char> {
    match p {
        ProviderService::Alchemy => "Alchemy"@,
        ProviderService::Ankr => "Ankr"@,
        ProviderService::BlockPi => "BlockPi"@,
        ProviderService::PublicNode => "PublicNode"@,
        ProviderService::Cloudflare => "Cloudflare"@,
        ProviderService::Llama => "Llama"@,
    }
}

fn provider_name_text(p: ProviderService) -> (r: &'static str)
    ensures
        r@ == provider_name(p),
{
    match p {
        ProviderService::Alchemy => "Alchemy",
        ProviderService::Ankr => "Ankr",
        ProviderService::BlockPi => "BlockPi",
        ProviderService::PublicNode => "PublicNode",
        ProviderService::Cloudflare => "Cloudflare",
        ProviderService::Llama => "Llama",
    }
}

/// Decimal notation of a signed number (a minus sign before negative ones).
pub open spec fn signed_decimal_text(v: i64) -> Seq<char> {
    if v < 0 {
        "-"@ + decimal_text((-v) as nat)
    } else {
        decimal_text(v as nat)
    }
}

fn signed_decimal_string(v: i64) -> (r: String)
    ensures
        r@ == signed_decimal_text(v),
{
    if v < 0 {
        let magnitude: u64 = if v == i64::MIN { 9_223_372_036_854_775_808u64 } else { (-v) as u64 };
        let digits = to_decimal_string(U256::from_u64(magnitude));
        "-".to_owned().concat(digits.as_str())
    } else {
        to_decimal_string(U256::from_u64(v as u64))
    }
}

/// The journal note of a reputation change.
pub open spec fn reputation_note(c: ReputationChange) -> Seq<char> {
    "Provider "@ + provider_name(c.provider) + (if c.increased {
        " reputation change: +1 | new reputation: "@
    } else {
        " reputation change: -1 | new reputation: "@
    }) + signed_decimal_text(c.score)
}

/// The journal note of a reputation change.
pub fn reputation_change_note(c: &ReputationChange) -> (r: String)
    ensures
        r@ == reputation_note(*c),
{
    let middle = if c.increased {
        " reputation change: +1 | new reputation: "
    } else {
        " reputation change: -1 | new reputation: "
    };
    let score = signed_decimal_string(c.score);
    "Provider ".to_owned().concat(provider_name_text(c.provider)).concat(middle).concat(score.as_str())
}

/// The journal collection that records one reputation change: one entry,
/// `Ok(())`, of type `ProviderReputationChange`, with the change's note.
pub open spec fn records_change(j: StableJournalCollection, c: ReputationChange, now_ns: u64) -> bool {
    &&& j.strategy is None
    &&& j.entries@.len() == 1
    &&& j.entries@[0].entry is Ok
    &&& j.entries@[0].log_type == LogType::ProviderReputationChange
    &&& j.entries@[0].note matches Some(n) && n@ == reputation_note(c)
    &&& j.start_date_and_time@ == utc_date_time_text(journal_secs(now_ns))
    &&& j.end_date_and_time@ == utc_date_time_text(journal_secs(now_ns))
}

/// Adds to the journal one collection per reputation change, in order.
pub fn journal_reputation_changes(
    journal: &mut Vec<StableJournalCollection>,
    changes: &Vec<ReputationChange>,
    now_ns: u64,
)
    ensures
        final(journal)@.len() == old(journal)@.len() + changes@.len(),
        final(journal)@.subrange(0, old(journal)@.len() as int) == old(journal)@,
        forall|k: int|
            0 <= k < changes@.len() ==> records_change(
                #[trigger] final(journal)@[old(journal)@.len() + k],
                changes@[k],
                now_ns,
            ),
{
    let n = changes.len();
    let ghost start = journal@.len();
    for i in 0..n
        invariant
            n == changes@.len(),
            start == old(journal)@.len(),
            journal@.len() == start + i,
            journal@.subrange(0, start as int) == old(journal)@,
            forall|k: int| 0 <= k < i ==> records_change(#[trigger] journal@[start + k], changes@[k], now_ns),
    {
        let note = reputation_change_note(&changes[i]);
        let mut collection = JournalCollection::open(None, now_ns);
        collection.append_note(Ok(()), LogType::ProviderReputationChange, note.as_str(), now_ns);
        let closed = collection.close(now_ns);
        let ghost before = journal@;
        journal.push(closed);
        proof {
            assert(journal@.subrange(0, start as int) =~= before.subrange(0, start as int));
            assert forall|k: int| 0 <= k < i + 1 implies records_change(
                #[trigger] journal@[start + k],
                changes@[k],
                now_ns,
            ) by {
                if k < i {
                    assert(journal@[start + k] == before[start + k]);
                }
            }
        }
    }
}

} // verus!
