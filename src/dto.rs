use vstd::prelude::*;

use crate::address::Address;
use crate::amount::FractionOrAmount;
use crate::recipients::{RecipientMap, TransferMap};
use crate::uint::Uint256;

verus! {

/// The hash of a submitted transaction.
#[derive(Clone, Copy, Debug)]
pub struct TransactionResponse {
    pub tx_hash: [u8; 32],
}

/// A submitted batch: its transaction and what each address received or gave.
pub struct DisperseCollectResponse {
    pub tx: TransactionResponse,
    pub transfers: TransferMap,
}

impl DisperseCollectResponse {
    /// The response for a batch, its transfers zipped from the batch's two sequences.
    pub fn new(tx: TransactionResponse, addresses: &Vec<Address>, amounts: &Vec<Uint256>) -> (r:
        DisperseCollectResponse)
        requires
            addresses@.len() == amounts@.len(),
        ensures
            r.tx == tx,
            r.transfers@.len() == addresses@.len(),
            forall|i: int|
                0 <= i < addresses@.len() ==> #[trigger] r.transfers@[i] == (
                    addresses@[i],
                    amounts@[i],
                ),
    {
        DisperseCollectResponse { tx, transfers: TransferMap::from_batch(addresses, amounts) }
    }
}

pub struct CollectErc20Request {
    pub caller: Address,
    pub recipient: Address,
    pub token: Address,
    pub spenders: RecipientMap,
}

pub struct CollectErc20Response(pub DisperseCollectResponse);

pub struct DisperseEthRequest {
    pub recipients: RecipientMap,
    pub caller: Address,
}

pub struct DisperseEthResponse(pub DisperseCollectResponse);

pub struct DisperseErc20Request {
    pub recipients: RecipientMap,
    pub token: Address,
    pub spender: Address,
    pub caller: Address,
}

pub struct DisperseErc20Response(pub DisperseCollectResponse);

#[derive(Clone, Copy, Debug)]
pub struct TransferRequest {
    pub recipient: Address,
    pub value: FractionOrAmount,
    pub token: Option<Address>,
    pub caller: Address,
}

#[derive(Clone, Copy, Debug)]
pub struct ApproveRequest {
    pub spender: Address,
    pub amount: FractionOrAmount,
    pub token: Address,
    pub caller: Address,
}

} // verus!
