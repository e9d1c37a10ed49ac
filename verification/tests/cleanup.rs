use ir_manager::cleanup::{daily_cleanup, mainnet_providers, reputations_cleanup};
use ir_manager::error::{ManagerError, RejectionCode};
use ir_manager::journal::{JournalEntry, LogType, StableJournalCollection};
use ir_manager::providers::{ProviderService, Reputations};

fn sorted(mut v: Vec<ProviderService>) -> Vec<ProviderService> {
    v.sort_by_key(|p| format!("{:?}", p));
    v
}

#[test]
fn reset_gives_every_provider_a_zero_score() {
    let mut reps: Reputations = vec![(12, ProviderService::Llama)];
    reputations_cleanup(&mut reps, Ok(vec![7u8; 32])).unwrap();
    assert_eq!(reps.len(), 4);
    assert!(reps.iter().all(|(score, _)| *score == 0));
    assert_eq!(sorted(reps.iter().map(|(_, p)| *p).collect()), sorted(mainnet_providers()));
}

#[test]
fn reset_is_determined_by_the_seed() {
    let mut a: Reputations = vec![];
    let mut b: Reputations = vec![];
    reputations_cleanup(&mut a, Ok(vec![1u8; 32])).unwrap();
    reputations_cleanup(&mut b, Ok(vec![1u8; 32])).unwrap();
    assert_eq!(a, b);
}

#[test]
fn reset_needs_a_32_byte_seed() {
    let mut reps: Reputations = vec![(3, ProviderService::Ankr)];
    match reputations_cleanup(&mut reps, Ok(vec![1u8; 31])) {
        Err(ManagerError::DecodingError(m)) => {
            assert_eq!(m, "Couldn't convert the seed bytes into a fixed length slice.")
        },
        _ => panic!("expected a decoding error"),
    }
    assert!(matches!(
        reputations_cleanup(&mut reps, Err((RejectionCode::SysTransient, "busy".to_string()))),
        Err(ManagerError::CallResult(RejectionCode::SysTransient, _))
    ));
    assert_eq!(reps, vec![(3, ProviderService::Ankr)]);
}

fn reputation_collection() -> StableJournalCollection {
    StableJournalCollection {
        start_date_and_time: String::new(),
        end_date_and_time: String::new(),
        strategy: None,
        entries: vec![JournalEntry::new(Ok(()), LogType::ProviderReputationChange, None, 0)],
    }
}

#[test]
fn daily_cleanup_prunes_resets_and_records() {
    let journal = vec![reputation_collection(), reputation_collection()];
    let mut reps: Reputations = vec![(5, ProviderService::Ankr)];
    let result = daily_cleanup(journal, &mut reps, Ok(vec![9u8; 32]), 0);
    assert_eq!(result.len(), 1);
    let record = &result[0];
    assert_eq!(record.entries.len(), 3);
    assert_eq!(
        record.entries[1].note.as_deref(),
        Some("Reset provider reputations back to zero and shuffled the list.")
    );
    assert_eq!(record.entries[2].note.as_deref(), Some("Finished the cleanup successfully."));
    assert!(reps.iter().all(|(score, _)| *score == 0));
}

#[test]
fn daily_cleanup_records_a_failed_reset() {
    let mut reps: Reputations = vec![(5, ProviderService::Ankr)];
    let result = daily_cleanup(vec![], &mut reps, Ok(vec![]), 0);
    assert_eq!(
        result[0].entries[1].note.as_deref(),
        Some("Failed to reset the provider reputations list.")
    );
    assert!(result[0].entries[1].entry.is_err());
    assert_eq!(reps, vec![(5, ProviderService::Ankr)]);
}
