use ir_manager::error::{EvmRpcError, ManagerError, RejectionCode};
use ir_manager::evm_rpc::SendRawTransactionStatus;
use ir_manager::journal::LogType;
use ir_manager::providers::{
    decrement_provider_score, extract_multi_rpc_result, extract_multi_rpc_send_raw_transaction_status,
    get_ranked_rpc_provider, get_ranked_rpc_providers, increment_provider_score, journal_reputation_changes,
    ranked_provider_list, reputation_change_note, MultiRpcResult, ProviderService, ReputationChange, Reputations,
    RpcService, RpcServices,
};

use ProviderService::{Alchemy, Ankr, BlockPi, Cloudflare, Llama, PublicNode};

fn rpc_error() -> EvmRpcError {
    EvmRpcError::IcError { code: RejectionCode::SysTransient, message: "timeout".to_string() }
}

#[test]
fn ranking_includes_a_provider_one_point_behind() {
    // Scores 10 10 9 8 7: the third provider joins the second, one point behind.
    let reps: Reputations = vec![(9, Ankr), (10, BlockPi), (7, Llama), (10, PublicNode), (8, Alchemy)];
    assert_eq!(ranked_provider_list(&reps), vec![BlockPi, PublicNode, Ankr]);
}

#[test]
fn ranking_keeps_the_order_of_equal_scores() {
    let reps: Reputations = vec![(0, Ankr), (0, BlockPi), (0, PublicNode), (0, Cloudflare), (0, Alchemy)];
    assert_eq!(ranked_provider_list(&reps), vec![Ankr, BlockPi, PublicNode]);
}

#[test]
fn ranking_takes_each_provider_once_on_a_chain_of_single_points() {
    let reps: Reputations = vec![(10, Ankr), (9, BlockPi), (8, PublicNode), (0, Cloudflare), (0, Alchemy)];
    assert_eq!(ranked_provider_list(&reps), vec![Ankr, BlockPi, PublicNode]);
    let reps: Reputations = vec![(8, PublicNode), (9, BlockPi), (10, Ankr)];
    assert_eq!(ranked_provider_list(&reps), vec![Ankr, BlockPi, PublicNode]);
}

#[test]
fn ranking_leaves_out_only_lower_scores() {
    let reps: Reputations = vec![(2, Ankr), (7, BlockPi), (3, PublicNode), (9, Cloudflare), (1, Alchemy), (4, Llama)];
    let ranked = ranked_provider_list(&reps);
    assert_eq!(ranked, vec![Cloudflare, BlockPi, Llama]);
    let lowest_taken = reps.iter().filter(|(_, p)| ranked.contains(p)).map(|(s, _)| *s).min().unwrap();
    assert!(reps.iter().filter(|(_, p)| !ranked.contains(p)).all(|(s, _)| *s <= lowest_taken));
}

#[test]
fn ranking_of_few_providers() {
    assert_eq!(ranked_provider_list(&vec![]), Vec::<ProviderService>::new());
    assert_eq!(ranked_provider_list(&vec![(3, Llama)]), vec![Llama]);
}

#[test]
fn ranked_services_are_main_net_lists() {
    let reps: Reputations = vec![(1, Ankr), (5, Alchemy), (3, BlockPi), (2, Llama)];
    match get_ranked_rpc_providers(&reps) {
        RpcServices::EthMainnet(Some(list)) => assert_eq!(list, vec![Alchemy, BlockPi, Llama]),
        _ => panic!("expected a list of main-net providers"),
    }
    match get_ranked_rpc_provider(&reps) {
        RpcServices::EthMainnet(Some(list)) => assert_eq!(list, vec![Alchemy]),
        _ => panic!("expected a list of main-net providers"),
    }
}

#[test]
fn scores_move_by_one_and_saturate() {
    let mut reps: Reputations = vec![(i64::MAX, Ankr), (i64::MIN, BlockPi), (4, PublicNode)];
    assert_eq!(increment_provider_score(&mut reps, Ankr), Some(i64::MAX));
    assert_eq!(decrement_provider_score(&mut reps, BlockPi), Some(i64::MIN));
    assert_eq!(increment_provider_score(&mut reps, PublicNode), Some(5));
    assert_eq!(increment_provider_score(&mut reps, Llama), None);
    assert_eq!(reps, vec![(i64::MAX, Ankr), (i64::MIN, BlockPi), (5, PublicNode)]);
}

#[test]
fn increment_then_decrement_restores_the_scores() {
    let original: Reputations = vec![(3, Ankr), (-2, BlockPi)];
    let mut reps = original.clone();
    increment_provider_score(&mut reps, BlockPi);
    decrement_provider_score(&mut reps, BlockPi);
    assert_eq!(reps, original);
}

#[test]
fn consistent_success_rewards_every_listed_provider() {
    let mut reps: Reputations = vec![(9, Ankr), (0, BlockPi), (0, PublicNode)];
    let mut changes = Vec::new();
    let result = extract_multi_rpc_result(
        &mut reps,
        RpcServices::EthMainnet(Some(vec![Ankr, BlockPi])),
        MultiRpcResult::Consistent(Ok(7u64)),
        &mut changes,
    );
    assert_eq!(result.unwrap(), 7);
    assert_eq!(reps, vec![(10, Ankr), (1, BlockPi), (0, PublicNode)]);
    assert_eq!(changes, vec![ReputationChange { provider: Ankr, score: 10, increased: true }]);
}

#[test]
fn consistent_failure_penalizes_every_listed_provider() {
    let mut reps: Reputations = vec![(0, Ankr), (0, BlockPi)];
    let mut changes = Vec::new();
    let result = extract_multi_rpc_result::<u64>(
        &mut reps,
        RpcServices::EthMainnet(Some(vec![Ankr])),
        MultiRpcResult::Consistent(Err(rpc_error())),
        &mut changes,
    );
    assert!(matches!(result, Err(ManagerError::RpcResponseError(EvmRpcError::IcError { .. }))));
    assert_eq!(reps, vec![(-1, Ankr), (0, BlockPi)]);
}

#[test]
fn default_providers_cannot_be_rescored() {
    let mut reps: Reputations = vec![(0, Ankr)];
    let mut changes = Vec::new();
    let result =
        extract_multi_rpc_result(&mut reps, RpcServices::EthMainnet(None), MultiRpcResult::Consistent(Ok(1u8)), &mut changes);
    assert!(matches!(result, Err(ManagerError::NonExistentValue)));
    assert_eq!(reps, vec![(0, Ankr)]);
}

#[test]
fn disagreement_rescores_each_provider_by_its_answer() {
    let mut reps: Reputations = vec![(0, Ankr), (0, BlockPi), (0, PublicNode)];
    let mut changes = Vec::new();
    let result = extract_multi_rpc_result(
        &mut reps,
        RpcServices::EthMainnet(Some(vec![Ankr, BlockPi])),
        MultiRpcResult::Inconsistent(vec![
            (RpcService::EthMainnet(Ankr), Ok(1u64)),
            (RpcService::EthMainnet(BlockPi), Err(rpc_error())),
            (RpcService::Other, Ok(2u64)),
        ]),
        &mut changes,
    );
    assert!(matches!(result, Err(ManagerError::NoConsensus)));
    assert_eq!(reps, vec![(1, Ankr), (-1, BlockPi), (0, PublicNode)]);
}

#[test]
fn a_nonce_answer_settles_a_disagreeing_send() {
    let mut reps: Reputations = vec![(0, Ankr), (0, BlockPi)];
    let mut changes = Vec::new();
    let result = extract_multi_rpc_send_raw_transaction_status(
        &mut reps,
        RpcServices::EthMainnet(Some(vec![Ankr, BlockPi])),
        MultiRpcResult::Inconsistent(vec![
            (RpcService::EthMainnet(Ankr), Ok(SendRawTransactionStatus::InsufficientFunds)),
            (RpcService::EthMainnet(BlockPi), Ok(SendRawTransactionStatus::NonceTooLow)),
        ]),
        &mut changes,
    );
    assert!(matches!(result, Ok(SendRawTransactionStatus::NonceTooLow)));
    assert_eq!(reps, vec![(0, Ankr), (0, BlockPi)]);
}

#[test]
fn an_undecided_send_rescores_and_fails() {
    let mut reps: Reputations = vec![(0, Ankr), (0, BlockPi)];
    let mut changes = Vec::new();
    let result = extract_multi_rpc_send_raw_transaction_status(
        &mut reps,
        RpcServices::EthMainnet(Some(vec![Ankr, BlockPi])),
        MultiRpcResult::Inconsistent(vec![
            (RpcService::EthMainnet(Ankr), Ok(SendRawTransactionStatus::InsufficientFunds)),
            (RpcService::EthMainnet(BlockPi), Err(rpc_error())),
        ]),
        &mut changes,
    );
    assert!(matches!(result, Err(ManagerError::NoConsensus)));
    assert_eq!(reps, vec![(1, Ankr), (-1, BlockPi)]);
}

#[test]
fn an_accepted_transaction_returns_its_hash() {
    let mut reps: Reputations = vec![(0, Ankr)];
    let mut changes = Vec::new();
    let result = extract_multi_rpc_send_raw_transaction_status(
        &mut reps,
        RpcServices::EthMainnet(Some(vec![Ankr])),
        MultiRpcResult::Consistent(Ok(SendRawTransactionStatus::Accepted(Some("0xabc".to_string())))),
        &mut changes,
    );
    match result {
        Ok(SendRawTransactionStatus::Accepted(Some(hash))) => assert_eq!(hash, "0xabc"),
        _ => panic!("expected the accepted transaction"),
    }
    assert_eq!(reps, vec![(1, Ankr)]);
}

#[test]
fn reputation_notes_name_the_provider_and_score() {
    let up = ReputationChange { provider: Cloudflare, score: 20, increased: true };
    let down = ReputationChange { provider: Ankr, score: -10, increased: false };
    assert_eq!(reputation_change_note(&up), "Provider Cloudflare reputation change: +1 | new reputation: 20");
    assert_eq!(reputation_change_note(&down), "Provider Ankr reputation change: -1 | new reputation: -10");
    let mut journal = Vec::new();
    journal_reputation_changes(&mut journal, &vec![up, down], 0);
    assert_eq!(journal.len(), 2);
    assert!(journal.iter().all(|c| c.is_reputation_change()));
    assert_eq!(journal[1].entries[0].log_type, LogType::ProviderReputationChange);
    assert_eq!(
        journal[1].entries[0].note.as_deref(),
        Some("Provider Ankr reputation change: -1 | new reputation: -10")
    );
}
