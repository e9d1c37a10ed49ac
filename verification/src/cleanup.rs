//! Periodic cleanup: pruning the journal and resetting the provider reputations.
//!
//! Once a day the journal loses its reputation change collections and all but its
//! 300 most recent collections, and every provider's score goes back to zero, in
//! an order shuffled from a random seed so that no provider keeps a head start.

use vstd::prelude::*;

use rand::seq::SliceRandom;
use rand_chacha::rand_core::SeedableRng;

use crate::error::{ManagerError, ManagerResult};
use crate::journal::{journal_cleanup, JournalCollection, LogType, StableJournalCollection};
use crate::providers::{providers_of, ProviderService, Reputations};
use crate::rpc::{extract_call_result, CallResult};

verus! {

/// The main-net providers whose reputations are kept after a reset.
pub open spec fn mainnet_providers_spec() -> Seq<ProviderService> {
    seq![ProviderService::BlockPi, ProviderService::PublicNode, ProviderService::Alchemy, ProviderService::Ankr]
}

/// The main-net providers whose reputations are kept after a reset.
pub fn mainnet_providers() -> (r: Vec<ProviderService>)
    ensures
        r@ == mainnet_providers_spec(),
{
    let r = vec![ProviderService::BlockPi, ProviderService::PublicNode, ProviderService::Alchemy, ProviderService::Ankr];
    proof {
        assert(r@ =~= mainnet_providers_spec());
    }
    r
}

/// The order that `rand`'s `shuffle`, driven by a `ChaCha8Rng` seeded with `seed`,
/// gives to `providers`.
pub uninterp spec fn shuffled_providers(seed: Seq<u8>, providers: Seq<ProviderService>) -> Seq<ProviderService>;

/// `rand::seq::SliceRandom::shuffle` with `rand_chacha::ChaCha8Rng::from_seed(seed)`.
/// Claimed: the order that `shuffled_providers` names for the seed and the
/// providers, and (as the Fisher-Yates swaps of its source show) a permutation of
/// them.
#[verifier::external_body]
fn shuffle_with_seed(seed: &[u8], providers: Vec<ProviderService>) -> (r: Vec<ProviderService>)
    requires
        seed@.len() == 32,
    ensures
        r@ == shuffled_providers(seed@, providers@),
        r@.to_multiset() == providers@.to_multiset(),
{
    let seed_array: [u8; 32] = seed.try_into().unwrap();
    let mut rng = rand_chacha::ChaCha8Rng::from_seed(seed_array);
    let mut shuffled = providers;
    shuffled.shuffle(&mut rng);
    shuffled
}

/// Every provider at score zero, in the given order.
pub open spec fn zeroed(providers: Seq<ProviderService>) -> Seq<(i64, ProviderService)> {
    providers.map_values(|p: ProviderService| (0i64, p))
}

/// Resets the provider reputations: every main-net provider at score zero, in the
/// order shuffled from the random seed.
///
/// Fails with the call's reject if the seed could not be had, and with
/// `DecodingError` if it is not 32 bytes long; the reputations stay as they were.
pub fn reputations_cleanup(reps: &mut Reputations, seed: CallResult<Vec<u8>>) -> (r: ManagerResult<()>)
    ensures
        match seed {
            Err(_) => (r matches Err(e) && e is CallResult) && final(reps)@ == old(reps)@,
            Ok(s) => if s@.len() == 32 {
                &&& r is Ok
                &&& final(reps)@ == zeroed(shuffled_providers(s@, mainnet_providers_spec()))
                &&& shuffled_providers(s@, mainnet_providers_spec()).to_multiset()
                    == mainnet_providers_spec().to_multiset()
            } else {
                (r matches Err(ManagerError::DecodingError(m)) && m@
                    == "Couldn't convert the seed bytes into a fixed length slice."@) && final(reps)@ == old(reps)@
            },
        },
{
    let providers = mainnet_providers();
    let seed = match extract_call_result(seed) {
        Ok(s) => s,
        Err(e) => return Err(e),
    };
    if seed.len() != 32 {
        return Err(ManagerError::DecodingError("Couldn't convert the seed bytes into a fixed length slice.".to_owned()));
    }
    let shuffled = shuffle_with_seed(seed.as_slice(), providers);
    let mut fresh: Reputations = Vec::new();
    let n = shuffled.len();
    for i in 0..n
        invariant
            n == shuffled@.len(),
            fresh@ == zeroed(shuffled@.subrange(0, i as int)),
    {
        fresh.push((0i64, shuffled[i]));
        proof {
            assert(zeroed(shuffled@.subrange(0, i + 1)) =~= zeroed(shuffled@.subrange(0, i as int)).push(
                (0i64, shuffled@[i as int]),
            ));
        }
    }
    proof {
        assert(shuffled@.subrange(0, n as int) =~= shuffled@);
    }
    *reps = fresh;
    Ok(())
}

/// After a reset to a reordering of the main-net providers (as the shuffle
/// gives), every score is zero and the providers are exactly the main-net ones,
/// each as often as in the list: a permutation of it.
pub proof fn lemma_reset_reputations(order: Seq<ProviderService>)
    requires
        order.to_multiset() == mainnet_providers_spec().to_multiset(),
    ensures
        ({
            let reps = zeroed(order);
            &&& forall|i: int| 0 <= i < reps.len() ==> (#[trigger] reps[i]).0 == 0
            &&& providers_of(reps) == order
            &&& providers_of(reps).to_multiset() == mainnet_providers_spec().to_multiset()
            &&& reps.len() == mainnet_providers_spec().len()
        }),
{
    let reps = zeroed(order);
    assert(providers_of(reps) =~= order);
    order.to_multiset_ensures();
    mainnet_providers_spec().to_multiset_ensures();
}

/// The daily cleanup: prunes the journal, resets the provider reputations from the
/// random `seed`, and records both in a new journal collection, which is added to
/// the journal last.
pub fn daily_cleanup(
    journal: Vec<StableJournalCollection>,
    reps: &mut Reputations,
    seed: CallResult<Vec<u8>>,
    now_ns: u64,
) -> (r: Vec<StableJournalCollection>)
    ensures
        r@.len() >= 1,
        r@.drop_last() == crate::journal::last_n(
            crate::journal::without_reputation_changes(journal@),
            crate::journal::JOURNAL_CAPACITY as nat,
        ),
        r@.last().strategy is None,
        r@.last().entries@.len() == 3,
        r@.last().entries@[0].note matches Some(n) && n@
            == "Cleaned up the journal by removing excess logs and all reputation change entries."@,
        r@.last().entries@[2].note matches Some(n) && n@ == "Finished the cleanup successfully."@,
        match seed {
            Ok(s) if s@.len() == 32 => {
                &&& final(reps)@ == zeroed(shuffled_providers(s@, mainnet_providers_spec()))
                &&& shuffled_providers(s@, mainnet_providers_spec()).to_multiset()
                    == mainnet_providers_spec().to_multiset()
                &&& r@.last().entries@[1].entry is Ok
                &&& r@.last().entries@[1].note matches Some(n) && n@
                    == "Reset provider reputations back to zero and shuffled the list."@
            },
            _ => {
                &&& final(reps)@ == old(reps)@
                &&& r@.last().entries@[1].entry is Err
                &&& r@.last().entries@[1].note matches Some(n) && n@ == "Failed to reset the provider reputations list."@
            },
        },
{
    let mut collection = JournalCollection::open(None, now_ns);
    let mut kept = journal_cleanup(journal);
    collection.append_note(
        Ok(()),
        LogType::Info,
        "Cleaned up the journal by removing excess logs and all reputation change entries.",
        now_ns,
    );
    match reputations_cleanup(reps, seed) {
        Ok(()) => {
            collection.append_note(
                Ok(()),
                LogType::Info,
                "Reset provider reputations back to zero and shuffled the list.",
                now_ns,
            );
        },
        Err(err) => {
            collection.append_note(Err(err), LogType::Info, "Failed to reset the provider reputations list.", now_ns);
        },
    }
    collection.append_note(Ok(()), LogType::Info, "Finished the cleanup successfully.", now_ns);
    let closed = collection.close(now_ns);
    let ghost before = kept@;
    kept.push(closed);
    proof {
        assert(kept@.drop_last() =~= before);
    }
    kept
}

} // verus!
