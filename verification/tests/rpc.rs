use ir_manager::error::{EvmRpcError, ManagerError, RejectionCode};
use ir_manager::providers::{ProviderService, RpcService, RpcServices};
use ir_manager::rpc::{
    cycles_cost, dynamic_retries_exhausted, extract_call_result, get_rpc_service, get_rpc_services, initial_rpc_services,
    is_response_size_error, nat_to_u256, only_controller, string_to_address, RetryDecision, RetryState,
};
use ir_manager::uint::U256;

fn size_error() -> ManagerError {
    ManagerError::RpcResponseError(EvmRpcError::IcError {
        code: RejectionCode::SysFatal,
        message: "Http body exceeds size limit of 8000 bytes.".to_string(),
    })
}

#[test]
fn call_results_are_extracted() {
    assert_eq!(extract_call_result::<u8>(Ok(3)).unwrap(), 3);
    match extract_call_result::<u8>(Err((RejectionCode::CanisterReject, "no".to_string()))) {
        Err(ManagerError::CallResult(RejectionCode::CanisterReject, m)) => assert_eq!(m, "no"),
        _ => panic!("expected the reject"),
    }
}

#[test]
fn only_controllers_pass() {
    assert!(only_controller(true).is_ok());
    assert!(matches!(only_controller(false), Err(ManagerError::Unauthorized)));
}

#[test]
fn addresses_parse() {
    let a = string_to_address("0x0123456789abcdef0123456789abcdef01234567".to_string()).unwrap();
    assert_eq!(a.hi, 0x01234567);
    assert_eq!(a.lo, 0x89abcdef0123456789abcdef01234567);
    assert!(matches!(string_to_address("0x12".to_string()), Err(ManagerError::DecodingError(_))));
}

#[test]
fn naturals_convert_up_to_32_bytes() {
    assert_eq!(nat_to_u256(&vec![1, 0]).unwrap(), U256::from_u64(256));
    assert_eq!(nat_to_u256(&vec![]).unwrap(), U256::zero());
    match nat_to_u256(&vec![1; 33]) {
        Err(ManagerError::DecodingError(m)) => assert_eq!(
            m,
            "The `Nat` input length exceedes 32 bytes when converted to big-endian bytes representation."
        ),
        _ => panic!("expected a decoding error"),
    }
}

#[test]
fn cycle_costs_fit_in_u128() {
    assert_eq!(cycles_cost(U256::from_u64(42)).unwrap(), 42);
    assert!(matches!(cycles_cost(U256::max()), Err(ManagerError::DecodingError(_))));
}

#[test]
fn multi_provider_calls_use_the_default_providers() {
    assert!(matches!(get_rpc_services(), RpcServices::EthMainnet(None)));
}

#[test]
fn single_provider_services_rotate() {
    let mut services = initial_rpc_services();
    assert_eq!(get_rpc_service(&mut services), RpcService::EthMainnet(ProviderService::Alchemy));
    assert_eq!(get_rpc_service(&mut services), RpcService::EthMainnet(ProviderService::Ankr));
    for _ in 0..4 {
        get_rpc_service(&mut services);
    }
    assert_eq!(get_rpc_service(&mut services), RpcService::EthMainnet(ProviderService::Alchemy));
}

#[test]
fn size_errors_are_recognized() {
    if let ManagerError::RpcResponseError(e) = size_error() {
        assert!(is_response_size_error(&e));
    }
    let other = EvmRpcError::IcError { code: RejectionCode::SysFatal, message: "boom".to_string() };
    assert!(!is_response_size_error(&other));
    let transient = EvmRpcError::IcError { code: RejectionCode::SysTransient, message: "length limit".to_string() };
    assert!(!is_response_size_error(&transient));
}

#[test]
fn calls_double_the_response_size_until_the_ceiling() {
    let mut state = RetryState::start(8_000);
    let mut attempts = 0;
    while state.may_call() {
        attempts += 1;
        assert!(matches!(state.after_call(Err(size_error())), RetryDecision::Enlarge));
    }
    assert_eq!(attempts, 8);
    assert_eq!(state.max_response_bytes, 2_048_000);
    assert!(matches!(dynamic_retries_exhausted(), ManagerError::Custom(_)));
}

#[test]
fn requests_switch_provider_on_other_errors() {
    let mut state = RetryState::start(8_000);
    let other = ManagerError::RpcResponseError(EvmRpcError::IcError {
        code: RejectionCode::SysTransient,
        message: "unavailable".to_string(),
    });
    assert!(matches!(state.after_request(Err(other)), RetryDecision::SwitchProvider));
    assert_eq!(state.rpc_changes, 1);
    match state.after_request(Ok("0x1".to_string())) {
        RetryDecision::Finish(Ok(v)) => assert_eq!(v, "0x1"),
        _ => panic!("expected the answer"),
    }
    match state.after_call(Err(ManagerError::Locked)) {
        RetryDecision::Finish(Err(ManagerError::Locked)) => {},
        _ => panic!("expected the error"),
    }
}
