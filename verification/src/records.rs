//! The data model: raw transaction details as the contract returns them, the
//! canonical output record, and the named error outcomes.

use vstd::prelude::*;
use crate::hexfmt::hex_display;
use crate::decimal::be_value;
use crate::decimal::dec_digits;

verus! {

/// Raw result of a "get transaction details" call, as byte strings: 20-byte
/// addresses and 32-byte big-endian words, exactly as the contract encodes
/// them.
#[derive(Debug)]
pub struct TxDetails {
    /// Wallet the transaction belongs to (20 bytes).
    pub safe: Vec<u8>,
    /// Call target (20 bytes).
    pub to: Vec<u8>,
    /// Amount, big-endian 32-byte word.
    pub value: Vec<u8>,
    /// Call payload, any length.
    pub data: Vec<u8>,
    /// Operation code; not interpreted further.
    pub operation: u8,
    /// Proposing account (20 bytes); all zero means "no such transaction".
    pub proposer: Vec<u8>,
    /// Nonce, big-endian 32-byte word.
    pub nonce: Vec<u8>,
}

impl TxDetails {
    /// Field lengths as the contract call returns them.
    pub open spec fn wf(&self) -> bool {
        &&& self.safe@.len() == 20
        &&& self.to@.len() == 20
        &&& self.value@.len() == 32
        &&& self.proposer@.len() == 20
        &&& self.nonce@.len() == 32
    }
}

/// Whether an address is the all-zero sentinel that the contract returns for
/// a transaction it has no record of.
pub open spec fn spec_zero_address(addr: Seq<u8>) -> bool {
    forall|i: int| 0 <= i < addr.len() ==> addr[i] == 0
}

/// Whether `addr` is the all-zero sentinel address.
pub fn is_zero_address(addr: &Vec<u8>) -> (r: bool)
    ensures
        r <==> spec_zero_address(addr@),
{
    let mut i: usize = 0;
    let mut all_zero: bool = true;
    while i < addr.len()
        invariant
            i <= addr@.len(),
            all_zero <==> (forall|j: int| 0 <= j < i ==> addr@[j] == 0),
        decreases addr@.len() - i,
    {
        if addr[i] != 0 {
            all_zero = false;
        }
        i = i + 1;
    }
    all_zero
}

/// The canonical output shape of one transaction: every numeric and byte
/// field rendered as text (`0x`-prefixed lowercase hex for byte strings,
/// decimal for integers).
#[derive(Debug)]
pub struct TransactionRecord {
    /// Transaction hash, `0x` + 64 lowercase hex characters.
    pub hash: String,
    /// Wallet address, hex text.
    pub safe: String,
    /// Call target, hex text.
    pub to: String,
    /// Amount, decimal text (arbitrary precision, never truncated).
    pub value: String,
    /// Call payload, hex text.
    pub data: String,
    /// Operation code, unchanged.
    pub operation: u8,
    /// Proposing account, hex text.
    pub proposer: String,
    /// Nonce, decimal text.
    pub nonce: String,
    /// One hex text per signer, in the order the contract returned them.
    pub signatures: Vec<String>,
}

impl TransactionRecord {
    /// The record is the canonical rendering of the given raw call results.
    pub open spec fn is_rendering_of(
        &self,
        hash: Seq<u8>,
        details: TxDetails,
        sigs: Seq<Seq<u8>>,
    ) -> bool {
        &&& self.hash@ == hex_display(hash)
        &&& self.safe@ == hex_display(details.safe@)
        &&& self.to@ == hex_display(details.to@)
        &&& self.value@ == dec_digits(be_value(details.value@))
        &&& self.data@ == hex_display(details.data@)
        &&& self.operation == details.operation
        &&& self.proposer@ == hex_display(details.proposer@)
        &&& self.nonce@ == dec_digits(be_value(details.nonce@))
        &&& self.signatures@.len() == sigs.len()
        &&& (forall|i: int|
            0 <= i < sigs.len() ==> #[trigger] self.signatures@[i]@ == hex_display(sigs[i]))
    }
}

/// Build the canonical record from raw call results: the normalizer.
pub fn build_record(
    hash: &Vec<u8>,
    details: &TxDetails,
    signatures: &Vec<Vec<u8>>,
) -> (r: TransactionRecord)
    ensures
        r.is_rendering_of(hash@, *details, signatures@.map_values(|s: Vec<u8>| s@)),
{
    let mut sig_texts: Vec<String> = Vec::new();
    let mut i: usize = 0;
    while i < signatures.len()
        invariant
            i <= signatures@.len(),
            sig_texts@.len() == i,
            forall|j: int|
                0 <= j < i ==> #[trigger] sig_texts@[j]@ == hex_display(signatures@[j]@),
        decreases signatures@.len() - i,
    {
        sig_texts.push(crate::hexfmt::format_hex(&signatures[i]));
        i = i + 1;
    }
    TransactionRecord {
        hash: crate::hexfmt::format_hex(hash),
        safe: crate::hexfmt::format_hex(&details.safe),
        to: crate::hexfmt::format_hex(&details.to),
        value: crate::decimal::be_bytes_to_decimal(&details.value),
        data: crate::hexfmt::format_hex(&details.data),
        operation: details.operation,
        proposer: crate::hexfmt::format_hex(&details.proposer),
        nonce: crate::decimal::be_bytes_to_decimal(&details.nonce),
        signatures: sig_texts,
    }
}

/// The named error outcomes of one invocation. Each carries the context a
/// caller needs to render a precise message; causes reported by the transport
/// are carried as text.
#[derive(Debug)]
pub enum FetchError {
    /// Malformed wallet or pool address text.
    InvalidAddress { text: String },
    /// Malformed transaction hash text.
    InvalidHash { text: String },
    /// Transport-level connection failure.
    NetworkUnreachable { cause: String },
    /// The wallet address hosts no deployed code on this network.
    WalletNotDeployed { network: String },
    /// The pool contract address hosts no deployed code on this network.
    PoolNotDeployed { address: String, network: String },
    /// The "get transaction details" call failed.
    DetailsFetchFailed { hash: String, cause: String },
    /// The "get signatures" call failed (fatal in single-lookup mode only).
    SignaturesFetchFailed { hash: String, cause: String },
    /// The "get pending transaction hashes" call failed.
    HashListFetchFailed { cause: String },
    /// The contract answered, but its proposer was the zero sentinel: it has
    /// no record of this transaction.
    NotFound { hash: String },
}

} // verus!
