//! The pluggable coin-selection capability. The builder holds a selector
//! and hands it, untouched, to the assembly pipeline; this library never
//! inspects a selector's internals and promises nothing of its choices.

use vstd::prelude::*;

use crate::types::FeeRate;
use crate::types::Utxo;

verus! {

/// What a coin selector hands back: the inputs it chose and the change
/// amount left over.
pub struct CoinSelection {
    pub selected: Vec<Utxo>,
    pub change_amount: u64,
}

/// A coin-selection strategy: given the candidate UTXOs that survived the
/// change-spend filter, a target amount, and a fee rate, choose an input
/// set and a change amount, or report that the candidates do not cover the
/// target. Implementations are supplied by the caller; this library makes
/// no promise about what they choose.
pub trait CoinSelectionAlgorithm: Sized {
    fn coin_select(
        &self,
        candidates: Vec<Utxo>,
        target_amount: u64,
        fee_rate: FeeRate,
    ) -> (r: Option<CoinSelection>);
}

/// The selector a fresh builder holds: it accumulates candidates in the
/// order given until their value covers the target, taking the target as
/// already accounting for fees.
pub struct DefaultCoinSelectionAlgorithm;

impl CoinSelectionAlgorithm for DefaultCoinSelectionAlgorithm {
    fn coin_select(
        &self,
        candidates: Vec<Utxo>,
        target_amount: u64,
        _fee_rate: FeeRate,
    ) -> (r: Option<CoinSelection>) {
        let mut rest = candidates;
        let mut selected: Vec<Utxo> = Vec::new();
        let mut total: u64 = 0;
        while rest.len() > 0 && total < target_amount
            decreases rest@.len(),
        {
            let u = rest.remove(0);
            total = total.saturating_add(u.txout.value);
            selected.push(u);
        }
        if total >= target_amount {
            Some(CoinSelection { selected, change_amount: total - target_amount })
        } else {
            None
        }
    }
}

} // verus!
