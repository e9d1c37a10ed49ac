//! Transactions sent to Ethereum: a builder for their parameters, and the
//! unsigned EIP-1559 transaction made of them once the fees and the gas limit are
//! known. Signing and sending happen outside.

use vstd::prelude::*;

use crate::address::{parsed_address, Address};
use crate::constants::CHAIN_ID;
use crate::error::{ManagerError, ManagerResult};
use crate::gas::FeeEstimates;
use crate::rpc::string_to_address;
use crate::types::DerivationPath;
use crate::uint::{base2, U256};

verus! {

/// Transaction builder: the parameters of a transaction to sign and send.
#[derive(Debug)]
pub struct TransactionBuilder {
    /// Recipient (hexadecimal address)
    pub to: String,
    /// Sender (hexadecimal address)
    pub from: String,
    /// Call data
    pub data: Vec<u8>,
    /// Value sent, in wei
    pub value: U256,
    /// Sender's nonce
    pub nonce: u64,
    /// Derivation path of the signing key
    pub derivation_path: DerivationPath,
    /// Cycles attached to the sending call
    pub cycles: u128,
}

impl Default for TransactionBuilder {
    fn default() -> (r: TransactionBuilder)
        ensures
            r.to@ == Seq::<char>::empty(),
            r.from@ == Seq::<char>::empty(),
            r.data@ == Seq::<u8>::empty(),
            r.value@ == 0,
            r.nonce == 0,
            r.derivation_path@ == Seq::<Vec<u8>>::empty(),
            r.cycles == 0,
    {
        TransactionBuilder {
            to: String::new(),
            from: String::new(),
            data: Vec::new(),
            value: U256::zero(),
            nonce: 0,
            derivation_path: Vec::new(),
            cycles: 0,
        }
    }
}

impl TransactionBuilder {
    /// Sets the `to` field
    pub fn to(self, to: String) -> (r: Self)
        ensures
            r == (TransactionBuilder { to, ..self }),
    {
        TransactionBuilder { to, ..self }
    }

    /// Sets the `from` field
    pub fn from(self, from: String) -> (r: Self)
        ensures
            r == (TransactionBuilder { from, ..self }),
    {
        TransactionBuilder { from, ..self }
    }

    /// Sets the `data` field
    pub fn data(self, data: Vec<u8>) -> (r: Self)
        ensures
            r == (TransactionBuilder { data, ..self }),
    {
        TransactionBuilder { data, ..self }
    }

    /// Sets the `value` field
    pub fn value(self, value: U256) -> (r: Self)
        ensures
            r == (TransactionBuilder { value, ..self }),
    {
        TransactionBuilder { value, ..self }
    }

    /// Sets the `nonce` field
    pub fn nonce(self, nonce: u64) -> (r: Self)
        ensures
            r == (TransactionBuilder { nonce, ..self }),
    {
        TransactionBuilder { nonce, ..self }
    }

    /// Sets the `derivation_path` field
    pub fn derivation_path(self, derivation_path: DerivationPath) -> (r: Self)
        ensures
            r == (TransactionBuilder { derivation_path, ..self }),
    {
        TransactionBuilder { derivation_path, ..self }
    }

    /// Sets the `cycles` field
    pub fn cycles(self, cycles: u128) -> (r: Self)
        ensures
            r == (TransactionBuilder { cycles, ..self }),
    {
        TransactionBuilder { cycles, ..self }
    }
}

/// An EIP-1559 transaction, ready to be signed.
#[derive(Debug)]
pub struct UnsignedTransaction {
    /// Chain id
    pub chain_id: u64,
    /// Recipient
    pub to: Address,
    /// Maximum fee per gas
    pub max_fee_per_gas: u128,
    /// Maximum priority fee per gas
    pub max_priority_fee_per_gas: u128,
    /// Value sent, in wei
    pub value: U256,
    /// Sender's nonce
    pub nonce: u64,
    /// Gas limit
    pub gas_limit: u128,
    /// Call data
    pub input: Vec<u8>,
}

impl TransactionBuilder {
    /// The unsigned transaction the builder describes, with the estimated fees
    /// and gas limit; fails with `DecodingError` if `to` is not an address.
    /// The gas estimate must fit in a `u128`.
    pub fn unsigned_transaction(self, fees: FeeEstimates, estimated_gas: U256) -> (r: ManagerResult<
        UnsignedTransaction,
    >)
        requires
            estimated_gas@ < base2(),
        ensures
            parsed_address(self.to@) is None ==> (r matches Err(e) && e is DecodingError),
            parsed_address(self.to@) matches Some((hi, lo)) ==> r == Ok::<UnsignedTransaction, ManagerError>(
                UnsignedTransaction {
                    chain_id: CHAIN_ID,
                    to: Address { hi, lo },
                    max_fee_per_gas: fees.max_fee_per_gas,
                    max_priority_fee_per_gas: fees.max_priority_fee_per_gas,
                    value: self.value,
                    nonce: self.nonce,
                    gas_limit: estimated_gas@ as u128,
                    input: self.data,
                },
            ),
    {
        let to = match string_to_address(self.to) {
            Ok(a) => a,
            Err(e) => return Err(e),
        };
        Ok(
            UnsignedTransaction {
                chain_id: CHAIN_ID,
                to,
                max_fee_per_gas: fees.max_fee_per_gas,
                max_priority_fee_per_gas: fees.max_priority_fee_per_gas,
                value: self.value,
                nonce: self.nonce,
                gas_limit: estimated_gas.to_u128(),
                input: self.data,
            },
        )
    }
}

} // verus!
