//! The change-spend policy: a pure filter that narrows a UTXO list to the
//! entries eligible for coin selection, deciding by the `is_internal` tag
//! alone and keeping the relative order of what it retains.

use vstd::prelude::*;

use crate::types::Utxo;

verus! {

/// Which UTXOs the coin selector may consider, by whether they are change
/// the wallet produced for itself.
#[derive(Debug, Ord, PartialOrd, Eq, PartialEq, Hash, Clone, Copy)]
pub enum ChangeSpendPolicy {
    /// Every UTXO passes; the default.
    ChangeAllowed,
    /// Only wallet-internal (change) UTXOs pass.
    OnlyChange,
    /// Only external (non-change) UTXOs pass.
    ChangeForbidden,
}

impl Default for ChangeSpendPolicy {
    /// The default policy allows spending change.
    fn default() -> (r: Self)
        ensures
            r == ChangeSpendPolicy::ChangeAllowed,
    {
        ChangeSpendPolicy::ChangeAllowed
    }
}

impl ChangeSpendPolicy {
    /// Whether this policy keeps the given UTXO.
    pub open spec fn retains(self, utxo: Utxo) -> bool {
        match self {
            ChangeSpendPolicy::ChangeAllowed => true,
            ChangeSpendPolicy::OnlyChange => utxo.is_internal,
            ChangeSpendPolicy::ChangeForbidden => !utxo.is_internal,
        }
    }

    /// `retains`, as a predicate value for use with sequence filtering.
    pub open spec fn retain_pred(self) -> spec_fn(Utxo) -> bool {
        |u: Utxo| self.retains(u)
    }

    /// Whether this policy keeps the given UTXO.
    fn retains_utxo(&self, utxo: &Utxo) -> (r: bool)
        ensures
            r == self.retains(*utxo),
    {
        match self {
            ChangeSpendPolicy::ChangeAllowed => true,
            ChangeSpendPolicy::OnlyChange => utxo.is_internal,
            ChangeSpendPolicy::ChangeForbidden => !utxo.is_internal,
        }
    }

    /// Keeps exactly the UTXOs this policy retains, in their original
    /// relative order. `ChangeAllowed` returns the list unchanged.
    pub fn filter_utxos(&self, utxos: Vec<Utxo>) -> (r: Vec<Utxo>)
        ensures
            r@ == utxos@.filter(self.retain_pred()),
            *self is ChangeAllowed ==> r@ == utxos@,
    {
        let ghost all = utxos@;
        let ghost pred = self.retain_pred();
        let mut rest = utxos;
        let mut kept: Vec<Utxo> = Vec::new();
        let ghost mut seen: Seq<Utxo> = Seq::empty();
        proof {
            assert(seen + rest@ =~= all);
            assert(seen.filter(pred) =~= kept@) by {
                reveal(Seq::filter);
            }
        }
        while rest.len() > 0
            invariant
                all == seen + rest@,
                kept@ == seen.filter(pred),
                pred == self.retain_pred(),
            decreases rest@.len(),
        {
            let ghost rest0 = rest@;
            let u = rest.remove(0);
            let ghost u_spec = u;
            if self.retains_utxo(&u) {
                kept.push(u);
            }
            proof {
                let seen2 = seen.push(u_spec);
                assert(seen2.drop_last() =~= seen);
                assert(seen2.filter(pred) == if pred(u_spec) {
                    seen.filter(pred).push(u_spec)
                } else {
                    seen.filter(pred)
                }) by {
                    reveal(Seq::filter);
                }
                assert(seen2 + rest@ =~= all) by {
                    assert(rest@ =~= rest0.drop_first());
                }
                seen = seen2;
            }
        }
        proof {
            assert(seen =~= all);
            if *self is ChangeAllowed {
                lemma_filter_retains_all(all, *self);
            }
        }
        kept
    }
}

/// A policy that allows everything filters nothing out.
proof fn lemma_filter_retains_all(s: Seq<Utxo>, policy: ChangeSpendPolicy)
    requires
        policy is ChangeAllowed,
    ensures
        s.filter(policy.retain_pred()) == s,
    decreases s.len(),
{
    reveal(Seq::filter);
    if s.len() > 0 {
        lemma_filter_retains_all(s.drop_last(), policy);
        assert(s.filter(policy.retain_pred()) =~= s);
    }
}

/// Law: the three policies partition any UTXO list. `ChangeAllowed` keeps
/// everything; what `OnlyChange` keeps is exactly the internal entries and
/// what `ChangeForbidden` keeps exactly the external ones, the two share
/// no entry, and together they account for every entry.
pub proof fn lemma_change_policy_partition(utxos: Seq<Utxo>)
    ensures
        utxos.filter(ChangeSpendPolicy::ChangeAllowed.retain_pred()) == utxos,
        utxos.filter(ChangeSpendPolicy::OnlyChange.retain_pred()).len() + utxos.filter(
            ChangeSpendPolicy::ChangeForbidden.retain_pred(),
        ).len() == utxos.len(),
        utxos.filter(ChangeSpendPolicy::OnlyChange.retain_pred()).to_multiset().add(
            utxos.filter(ChangeSpendPolicy::ChangeForbidden.retain_pred()).to_multiset(),
        ) == utxos.to_multiset(),
        forall|u: Utxo|
            utxos.filter(ChangeSpendPolicy::OnlyChange.retain_pred()).contains(u)
                ==> #[trigger] u.is_internal,
        forall|u: Utxo|
            utxos.filter(ChangeSpendPolicy::ChangeForbidden.retain_pred()).contains(u) ==> !(
            #[trigger] u.is_internal),
        forall|u: Utxo|
            !(#[trigger] utxos.filter(ChangeSpendPolicy::OnlyChange.retain_pred()).contains(u)
                && #[trigger] utxos.filter(
                ChangeSpendPolicy::ChangeForbidden.retain_pred(),
            ).contains(u)),
    decreases utxos.len(),
{
    broadcast use vstd::seq_lib::group_to_multiset_ensures;
    broadcast use vstd::multiset::group_multiset_axioms;

    reveal(Seq::filter);
    lemma_filter_retains_all(utxos, ChangeSpendPolicy::ChangeAllowed);
    let only = utxos.filter(ChangeSpendPolicy::OnlyChange.retain_pred());
    let forbidden = utxos.filter(ChangeSpendPolicy::ChangeForbidden.retain_pred());
    if utxos.len() == 0 {
        assert(only.to_multiset().add(forbidden.to_multiset()) =~= utxos.to_multiset());
    } else {
        let head = utxos.drop_last();
        let last = utxos.last();
        lemma_change_policy_partition(head);
        let only_h = head.filter(ChangeSpendPolicy::OnlyChange.retain_pred());
        let forbidden_h = head.filter(ChangeSpendPolicy::ChangeForbidden.retain_pred());
        if last.is_internal {
            assert(only == only_h.push(last));
            assert(forbidden == forbidden_h);
            assert(only.to_multiset().add(forbidden.to_multiset()) =~= utxos.to_multiset());
        } else {
            assert(only == only_h);
            assert(forbidden == forbidden_h.push(last));
            assert(only.to_multiset().add(forbidden.to_multiset()) =~= utxos.to_multiset());
        }
        assert forall|u: Utxo| only.contains(u) implies #[trigger] u.is_internal by {
            let k = choose|k: int| 0 <= k < only.len() && only[k] == u;
            utxos.filter_lemma(ChangeSpendPolicy::OnlyChange.retain_pred());
        }
        assert forall|u: Utxo| forbidden.contains(u) implies !(#[trigger] u.is_internal) by {
            let k = choose|k: int| 0 <= k < forbidden.len() && forbidden[k] == u;
            utxos.filter_lemma(ChangeSpendPolicy::ChangeForbidden.retain_pred());
        }
    }
}

} // verus!
