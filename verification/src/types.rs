//! Plain-value types for the pieces of a transaction that this library
//! reads or records: previous-output references, inputs, outputs, whole
//! transactions, wallet UTXOs, and the small pass-through value types the
//! request builder stores.

use vstd::prelude::*;

verus! {

/// A transaction identifier: a fixed-length byte string, held in its
/// canonical byte order. Identifiers are compared as byte sequences.
#[derive(Clone, Copy, PartialEq, Eq, Debug, Hash)]
pub struct Txid(pub [u8; 32]);

/// A reference to a prior transaction output: the identifier of the
/// transaction that created it and the index of the output within it.
#[derive(Clone, Copy, PartialEq, Eq, Debug, Hash)]
pub struct OutPoint {
    pub txid: Txid,
    pub vout: u32,
}

/// A transaction input: the previous output it spends and its sequence
/// number (the field replace-by-fee signalling is carried in).
#[derive(Clone, Copy, PartialEq, Eq, Debug, Hash)]
pub struct TxIn {
    pub previous_output: OutPoint,
    pub sequence: u32,
}

/// A transaction output: an amount in the smallest unit and the script
/// that encumbers it, as raw bytes.
#[derive(Clone, PartialEq, Eq, Debug, Hash)]
pub struct TxOut {
    pub value: u64,
    pub script_pubkey: Vec<u8>,
}

/// A transaction with ordered input and output lists. Only the fields the
/// ordering strategies read or leave alone are modelled.
#[derive(Clone, PartialEq, Eq, Debug)]
pub struct Transaction {
    pub version: u32,
    pub lock_time: u32,
    pub input: Vec<TxIn>,
    pub output: Vec<TxOut>,
}

/// An unspent transaction output known to the wallet. `is_internal` marks
/// outputs produced by the wallet's own change branch; it is the one field
/// the change-spend policy inspects.
#[derive(Clone, PartialEq, Eq, Debug)]
pub struct Utxo {
    pub outpoint: OutPoint,
    pub txout: TxOut,
    pub is_internal: bool,
}

/// A fee rate in smallest units per size unit. An opaque pass-through
/// value; being unsigned it is non-negative by construction.
#[derive(Clone, Copy, PartialEq, Eq, PartialOrd, Ord, Debug, Hash)]
pub struct FeeRate(pub u64);

/// A transaction version number; defaults to 1.
#[derive(Clone, Copy, PartialEq, Eq, PartialOrd, Ord, Debug, Hash)]
pub struct Version(pub u32);

impl Default for Version {
    /// The default transaction version is 1.
    fn default() -> (r: Self)
        ensures
            r == (Version(1u32)),
    {
        Version(1)
    }
}

/// A destination address, held as its text form. The builder records it
/// unchanged; parsing and validation belong to the assembly pipeline.
#[derive(Clone, PartialEq, Eq, Debug)]
pub struct Address(pub String);

/// A signature-hash mode, held as its raw consensus flag. Opaque here:
/// the assembly pipeline interprets it.
#[derive(Clone, Copy, PartialEq, Eq, Debug, Hash)]
pub struct SighashType(pub u32);

/// A policy path: for each descriptor-policy identifier, the ordered list
/// of satisfied branch indices. Opaque to this library, passed through
/// unchanged.
#[derive(Clone, PartialEq, Eq, Debug)]
pub struct PolicyPath(pub Vec<(String, Vec<usize>)>);

} // verus!
