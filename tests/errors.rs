use disperse_collect::address::Address;
use disperse_collect::error::{ApiError, ContractFailure, DcError, RpcFailure};
use disperse_collect::uint::Uint256;

fn token() -> Address {
    Address::new([0xaa; 20])
}

#[test]
fn missing_function_means_missing_token() {
    let e = DcError::from_erc20_err(ContractFailure::UnknownFunction("balanceOf".to_string()), token());
    assert!(matches!(e, DcError::TokenNotFound(a) if a == token()));
    let e = DcError::from_erc20_err(ContractFailure::UnknownSelector("0x70a08231".to_string()), token());
    assert!(matches!(e, DcError::TokenNotFound(_)));
}

#[test]
fn transport_failures_stay_transport() {
    let e = DcError::from_erc20_err(
        ContractFailure::TransportError(RpcFailure::Transport("connection refused".to_string())),
        token(),
    );
    assert!(matches!(e, DcError::Transport(ref m) if m == "connection refused"));
    let e = DcError::from_rpc_err(RpcFailure::Other("bad response".to_string()));
    assert!(matches!(e, DcError::Unexpected(ref m) if m == "bad response"));
    let e = DcError::from_erc20_err(ContractFailure::Other("abi".to_string()), token());
    assert!(matches!(e, DcError::Unexpected(_)));
}

#[test]
fn caller_errors_are_bad_requests() {
    let e = DcError::InsufficientFunds {
        required: Uint256::from_u64(2),
        available: Uint256::from_u64(1),
        address: token(),
    };
    let api = ApiError::from_dc_error(&e, "insufficient funds".to_string());
    let (code, body) = api.into_error_response();
    assert_eq!(400, code);
    assert_eq!("insufficient funds", body.error);
    let e = DcError::SignerNotFound(token());
    assert!(e.is_caller_fixable());
    assert!(matches!(ApiError::from_dc_error(&e, "x".to_string()), ApiError::InvalidRequest(_)));
}

#[test]
fn infrastructure_errors_are_opaque() {
    let e = DcError::unexpected("disk on fire".to_string());
    assert!(!e.is_caller_fixable());
    let (code, body) = ApiError::from_dc_error(&e, "disk on fire".to_string()).into_error_response();
    assert_eq!(500, code);
    assert_eq!("internal server error", body.error);
    assert!(!DcError::Transport("t".to_string()).is_caller_fixable());
}
