use vstd::prelude::*;

use crate::address::Address;
use crate::amount::InvalidFractionalAmountError;
use crate::uint::Uint256;

verus! {

/// What can go wrong while resolving, checking and submitting a batch.
#[derive(Clone, Debug)]
pub enum DcError {
    InsufficientFunds { required: Uint256, available: Uint256, address: Address },
    InvalidFractionalAmount(InvalidFractionalAmountError),
    TokenNotFound(Address),
    Transport(String),
    Unexpected(String),
    SignerNotFound(Address),
}

/// How a call to a node failed: the transport itself, or anything else on the way.
#[derive(Clone, Debug)]
pub enum RpcFailure {
    Transport(String),
    Other(String),
}

/// How a call to a contract failed.
#[derive(Clone, Debug)]
pub enum ContractFailure {
    UnknownFunction(String),
    UnknownSelector(String),
    TransportError(RpcFailure),
    Other(String),
}

impl DcError {
    /// Whether the caller can fix the request that produced this error.
    pub open spec fn caller_fixable(self) -> bool {
        match self {
            DcError::InsufficientFunds { .. } => true,
            DcError::InvalidFractionalAmount(_) => true,
            DcError::TokenNotFound(_) => true,
            DcError::SignerNotFound(_) => true,
            DcError::Transport(_) => false,
            DcError::Unexpected(_) => false,
        }
    }

    pub fn unexpected(cause: String) -> (r: DcError)
        ensures
            r == DcError::Unexpected(cause),
    {
        DcError::Unexpected(cause)
    }

    pub fn from_rpc_err(e: RpcFailure) -> (r: DcError)
        ensures
            match e {
                RpcFailure::Transport(t) => r == DcError::Transport(t),
                RpcFailure::Other(m) => r == DcError::Unexpected(m),
            },
    {
        match e {
            RpcFailure::Transport(t) => DcError::Transport(t),
            RpcFailure::Other(m) => DcError::unexpected(m),
        }
    }

    /// A failed call to the token at `token_address`: a missing function means that no such
    /// token is there.
    pub fn from_erc20_err(e: ContractFailure, token_address: Address) -> (r: DcError)
        ensures
            match e {
                ContractFailure::UnknownFunction(_) => r == DcError::TokenNotFound(token_address),
                ContractFailure::UnknownSelector(_) => r == DcError::TokenNotFound(token_address),
                ContractFailure::TransportError(RpcFailure::Transport(t)) => r
                    == DcError::Transport(t),
                ContractFailure::TransportError(RpcFailure::Other(m)) => r
                    == DcError::Unexpected(m),
                ContractFailure::Other(m) => r == DcError::Unexpected(m),
            },
    {
        match e {
            ContractFailure::UnknownFunction(_) => DcError::TokenNotFound(token_address),
            ContractFailure::UnknownSelector(_) => DcError::TokenNotFound(token_address),
            ContractFailure::TransportError(t) => DcError::from_rpc_err(t),
            ContractFailure::Other(m) => DcError::unexpected(m),
        }
    }

    pub fn is_caller_fixable(&self) -> (r: bool)
        ensures
            r == self.caller_fixable(),
    {
        match self {
            DcError::InsufficientFunds { .. } => true,
            DcError::InvalidFractionalAmount(_) => true,
            DcError::TokenNotFound(_) => true,
            DcError::SignerNotFound(_) => true,
            DcError::Transport(_) => false,
            DcError::Unexpected(_) => false,
        }
    }
}

/// An error as a request handler reports it.
#[derive(Clone, Debug)]
pub enum ApiError {
    InvalidRequest(String),
    Internal(String),
}

/// The body of an error reply.
#[derive(Clone, Debug)]
pub struct ErrorResponse {
    pub error: String,
}

impl ApiError {
    /// Sorts an error by who can fix it; `message` describes it. Errors that the caller can
    /// fix keep their message, the others keep theirs for the log only.
    pub fn from_dc_error(e: &DcError, message: String) -> (r: ApiError)
        ensures
            e.caller_fixable() ==> r == ApiError::InvalidRequest(message),
            !e.caller_fixable() ==> r == ApiError::Internal(message),
    {
        if e.is_caller_fixable() {
            ApiError::InvalidRequest(message)
        } else {
            ApiError::Internal(message)
        }
    }

    /// The status code and body of the reply: the message for a bad request, nothing of
    /// the detail for an internal error.
    pub fn into_error_response(self) -> (r: (u16, ErrorResponse))
        ensures
            match self {
                ApiError::InvalidRequest(m) => r.0 == 400 && r.1.error@ == m@,
                ApiError::Internal(_) => r.0 == 500 && r.1.error@ == "internal server error"@,
            },
    {
        match self {
            ApiError::InvalidRequest(m) => (400, ErrorResponse { error: m }),
            ApiError::Internal(_) => {
                let error = String::from_str("internal server error");
                (500, ErrorResponse { error })
            },
        }
    }
}

} // verus!
