//! Ordering strategies for an assembled transaction. `Untouched` leaves it
//! alone, `Shuffle` permutes the outputs with a fresh random source, and
//! `BIP69Lexicographic` sorts inputs by (previous txid, previous vout) and
//! outputs by (amount, script bytes), the canonical cross-implementation
//! ordering convention.

use vstd::prelude::*;

use crate::byte_order::lemma_lex_le_antisymmetric;
use crate::byte_order::lemma_lex_le_reflexive;
use crate::byte_order::lemma_lex_le_total;
use crate::byte_order::lemma_lex_le_transitive;
use crate::byte_order::lex_le;
use crate::byte_order::lex_le_bytes;
use crate::types::Transaction;
use crate::types::TxIn;
use crate::types::TxOut;

use rand::seq::SliceRandom;
use rand::SeedableRng;

verus! {

/// How `sort_tx` rearranges a transaction's inputs and outputs.
#[derive(Debug, Ord, PartialOrd, Eq, PartialEq, Hash, Clone, Copy)]
pub enum TxOrdering {
    /// Outputs are permuted uniformly at random; inputs keep their order.
    Shuffle,
    /// Inputs and outputs keep exactly the order they were assembled in.
    Untouched,
    /// Inputs and outputs are sorted into the canonical lexicographic order.
    BIP69Lexicographic,
}

impl Default for TxOrdering {
    /// The default ordering strategy is `Shuffle`.
    fn default() -> (r: Self)
        ensures
            r == TxOrdering::Shuffle,
    {
        TxOrdering::Shuffle
    }
}

/// Input `a` sorts at or before input `b`: ascending by previous txid in
/// canonical byte order, then by previous output index.
pub open spec fn input_le(a: TxIn, b: TxIn) -> bool {
    if a.previous_output.txid.0@ == b.previous_output.txid.0@ {
        a.previous_output.vout <= b.previous_output.vout
    } else {
        lex_le(a.previous_output.txid.0@, b.previous_output.txid.0@)
    }
}

/// Output `a` sorts at or before output `b`: ascending by amount, then by
/// script bytes in lexicographic order.
pub open spec fn output_le(a: TxOut, b: TxOut) -> bool {
    if a.value == b.value {
        lex_le(a.script_pubkey@, b.script_pubkey@)
    } else {
        a.value < b.value
    }
}

/// The inputs of a sequence stand in ascending canonical order.
pub open spec fn inputs_sorted(s: Seq<TxIn>) -> bool {
    forall|i: int, j: int| 0 <= i < j < s.len() ==> #[trigger] input_le(s[i], s[j])
}

/// The outputs of a sequence stand in ascending canonical order.
pub open spec fn outputs_sorted(s: Seq<TxOut>) -> bool {
    forall|i: int, j: int| 0 <= i < j < s.len() ==> #[trigger] output_le(s[i], s[j])
}

/// The input order is total: of any two inputs, one sorts at or before the
/// other.
pub proof fn lemma_input_le_total(a: TxIn, b: TxIn)
    ensures
        input_le(a, b) || input_le(b, a),
{
    if a.previous_output.txid.0@ != b.previous_output.txid.0@ {
        lemma_lex_le_total(a.previous_output.txid.0@, b.previous_output.txid.0@);
    }
}

/// The input order is transitive.
pub proof fn lemma_input_le_transitive(a: TxIn, b: TxIn, c: TxIn)
    requires
        input_le(a, b),
        input_le(b, c),
    ensures
        input_le(a, c),
{
    let x = a.previous_output.txid.0@;
    let y = b.previous_output.txid.0@;
    let z = c.previous_output.txid.0@;
    if x != y && y != z {
        lemma_lex_le_transitive(x, y, z);
        if x == z {
            lemma_lex_le_antisymmetric(x, y);
        }
    }
}

/// The output order is total.
pub proof fn lemma_output_le_total(a: TxOut, b: TxOut)
    ensures
        output_le(a, b) || output_le(b, a),
{
    if a.value == b.value {
        lemma_lex_le_total(a.script_pubkey@, b.script_pubkey@);
    }
}

/// The output order is transitive.
pub proof fn lemma_output_le_transitive(a: TxOut, b: TxOut, c: TxOut)
    requires
        output_le(a, b),
        output_le(b, c),
    ensures
        output_le(a, c),
{
    if a.value == b.value && b.value == c.value {
        lemma_lex_le_transitive(a.script_pubkey@, b.script_pubkey@, c.script_pubkey@);
    }
}

/// Compares two inputs in the canonical input order.
fn input_le_exec(a: &TxIn, b: &TxIn) -> (r: bool)
    ensures
        r == input_le(*a, *b),
{
    let le_ab = lex_le_bytes(
        a.previous_output.txid.0.as_slice(),
        b.previous_output.txid.0.as_slice(),
    );
    let le_ba = lex_le_bytes(
        b.previous_output.txid.0.as_slice(),
        a.previous_output.txid.0.as_slice(),
    );
    proof {
        if le_ab && le_ba {
            lemma_lex_le_antisymmetric(a.previous_output.txid.0@, b.previous_output.txid.0@);
        }
        if a.previous_output.txid.0@ == b.previous_output.txid.0@ {
            lemma_lex_le_reflexive(a.previous_output.txid.0@);
        }
    }
    if le_ab && le_ba {
        a.previous_output.vout <= b.previous_output.vout
    } else {
        le_ab
    }
}

/// Compares two outputs in the canonical output order.
fn output_le_exec(a: &TxOut, b: &TxOut) -> (r: bool)
    ensures
        r == output_le(*a, *b),
{
    if a.value == b.value {
        lex_le_bytes(a.script_pubkey.as_slice(), b.script_pubkey.as_slice())
    } else {
        a.value < b.value
    }
}

/// Sorts the inputs into ascending canonical order by a stable insertion
/// sort: the result is sorted, holds exactly the original inputs, and an
/// already-sorted list is returned unchanged.
fn sort_inputs(v: &mut Vec<TxIn>)
    ensures
        inputs_sorted(final(v)@),
        final(v)@.to_multiset() == old(v)@.to_multiset(),
        inputs_sorted(old(v)@) ==> final(v)@ == old(v)@,
{
    broadcast use vstd::seq_lib::group_to_multiset_ensures;
    broadcast use vstd::multiset::group_multiset_axioms;

    let ghost orig = v@;
    if v.len() < 2 {
        return ;
    }
    let mut i: usize = 1;
    while i < v.len()
        invariant
            1 <= i <= v@.len(),
            v@.len() == orig.len(),
            inputs_sorted(v@.subrange(0, i as int)),
            v@.to_multiset() == orig.to_multiset(),
            inputs_sorted(orig) ==> v@ == orig,
        decreases v@.len() - i,
    {
        let ghost prev = v@;
        let x = v.remove(i);
        proof {
            assert(v@.subrange(0, i as int) =~= prev.subrange(0, i as int));
        }
        let mut p: usize = 0;
        loop
            invariant
                p <= i,
                i <= v@.len(),
                v@ == prev.remove(i as int),
                forall|k: int| 0 <= k < p ==> input_le(#[trigger] v@[k], x),
            ensures
                p <= i,
                v@ == prev.remove(i as int),
                forall|k: int| 0 <= k < p ==> input_le(#[trigger] v@[k], x),
                p < i ==> !input_le(v@[p as int], x),
            decreases i - p,
        {
            if p >= i {
                break ;
            }
            let e = v[p];
            if !input_le_exec(&e, &x) {
                break ;
            }
            p = p + 1;
        }
        proof {
            let mid = v@;
            prev.remove_ensures(i as int);
            if p < i {
                lemma_input_le_total(mid[p as int], x);
                assert forall|k: int| p <= k < i implies input_le(x, #[trigger] mid[k]) by {
                    if k > p {
                        assert(input_le(
                            mid.subrange(0, i as int)[p as int],
                            mid.subrange(0, i as int)[k],
                        ));
                        lemma_input_le_transitive(x, mid[p as int], mid[k]);
                    }
                }
            }
        }
        v.insert(p, x);
        proof {
            let mid = prev.remove(i as int);
            let cur = v@;
            mid.insert_ensures(p as int, x);
            prev.remove_ensures(i as int);
            // the new prefix is sorted
            assert forall|m: int, n: int| 0 <= m < n < i + 1 implies input_le(
                #[trigger] cur[m],
                #[trigger] cur[n],
            ) by {
                let sub = mid.subrange(0, i as int);
                if n < p {
                    assert(input_le(sub[m], sub[n]));
                } else if n == p {
                    assert(cur[n] == x);
                    if m < p {
                        assert(cur[m] == mid[m]);
                    }
                } else {
                    // n > p, so cur[n] == mid[n - 1] with n - 1 in [p, i)
                    if m < p {
                        assert(cur[m] == mid[m]);
                        if input_le(x, mid[n - 1]) {
                            lemma_input_le_transitive(mid[m], x, mid[n - 1]);
                        }
                        assert(input_le(sub[m], sub[n - 1]));
                    } else if m == p {
                        assert(cur[m] == x);
                    } else {
                        assert(input_le(sub[m - 1], sub[n - 1]));
                    }
                }
            }
            assert(inputs_sorted(cur.subrange(0, i + 1))) by {
                assert forall|m: int, n: int|
                    0 <= m < n < i + 1 implies input_le(
                    #[trigger] cur.subrange(0, i + 1)[m],
                    #[trigger] cur.subrange(0, i + 1)[n],
                ) by {
                    assert(cur.subrange(0, i + 1)[m] == cur[m]);
                    assert(cur.subrange(0, i + 1)[n] == cur[n]);
                }
            }
            // the multiset is preserved: taking the element out and putting
            // it back leaves the counts alone
            assert(prev[i as int] == x);
            assert(prev.contains(x));
            vstd::seq_lib::to_multiset_remove(prev, i as int);
            vstd::seq_lib::to_multiset_insert(mid, p as int, x);
            vstd::seq_lib::to_multiset_contains(prev, x);
            assert(prev.to_multiset().count(x) > 0);
            assert(cur.to_multiset() =~= prev.to_multiset());
            // an already-sorted list is left unchanged
            if inputs_sorted(orig) {
                assert(prev == orig);
                assert forall|k: int| 0 <= k < i implies input_le(#[trigger] mid[k], x) by {
                    assert(input_le(orig[k], orig[i as int]));
                }
                assert(p == i);
                assert(cur =~= orig);
            }
        }
        i = i + 1;
    }
    proof {
        assert(v@.subrange(0, v@.len() as int) =~= v@);
    }
}

/// Sorts the outputs into ascending canonical order; the same insertion
/// sort as for inputs.
fn sort_outputs(v: &mut Vec<TxOut>)
    ensures
        outputs_sorted(final(v)@),
        final(v)@.to_multiset() == old(v)@.to_multiset(),
        outputs_sorted(old(v)@) ==> final(v)@ == old(v)@,
{
    broadcast use vstd::seq_lib::group_to_multiset_ensures;
    broadcast use vstd::multiset::group_multiset_axioms;

    let ghost orig = v@;
    if v.len() < 2 {
        return ;
    }
    let mut i: usize = 1;
    while i < v.len()
        invariant
            1 <= i <= v@.len(),
            v@.len() == orig.len(),
            outputs_sorted(v@.subrange(0, i as int)),
            v@.to_multiset() == orig.to_multiset(),
            outputs_sorted(orig) ==> v@ == orig,
        decreases v@.len() - i,
    {
        let ghost prev = v@;
        let x = v.remove(i);
        proof {
            assert(v@.subrange(0, i as int) =~= prev.subrange(0, i as int));
        }
        let mut p: usize = 0;
        loop
            invariant
                p <= i,
                i <= v@.len(),
                v@ == prev.remove(i as int),
                forall|k: int| 0 <= k < p ==> output_le(#[trigger] v@[k], x),
            ensures
                p <= i,
                v@ == prev.remove(i as int),
                forall|k: int| 0 <= k < p ==> output_le(#[trigger] v@[k], x),
                p < i ==> !output_le(v@[p as int], x),
            decreases i - p,
        {
            if p >= i {
                break ;
            }
            let le = {
                let e = &v[p];
                output_le_exec(e, &x)
            };
            if !le {
                break ;
            }
            p = p + 1;
        }
        proof {
            let mid = v@;
            prev.remove_ensures(i as int);
            if p < i {
                lemma_output_le_total(mid[p as int], x);
                assert forall|k: int| p <= k < i implies output_le(x, #[trigger] mid[k]) by {
                    if k > p {
                        assert(output_le(
                            mid.subrange(0, i as int)[p as int],
                            mid.subrange(0, i as int)[k],
                        ));
                        lemma_output_le_transitive(x, mid[p as int], mid[k]);
                    }
                }
            }
        }
        v.insert(p, x);
        proof {
            let mid = prev.remove(i as int);
            let cur = v@;
            mid.insert_ensures(p as int, x);
            prev.remove_ensures(i as int);
            assert forall|m: int, n: int| 0 <= m < n < i + 1 implies output_le(
                #[trigger] cur[m],
                #[trigger] cur[n],
            ) by {
                let sub = mid.subrange(0, i as int);
                if n < p {
                    assert(output_le(sub[m], sub[n]));
                } else if n == p {
                    assert(cur[n] == x);
                    if m < p {
                        assert(cur[m] == mid[m]);
                    }
                } else {
                    if m < p {
                        assert(cur[m] == mid[m]);
                        if output_le(x, mid[n - 1]) {
                            lemma_output_le_transitive(mid[m], x, mid[n - 1]);
                        }
                        assert(output_le(sub[m], sub[n - 1]));
                    } else if m == p {
                        assert(cur[m] == x);
                    } else {
                        assert(output_le(sub[m - 1], sub[n - 1]));
                    }
                }
            }
            assert(outputs_sorted(cur.subrange(0, i + 1))) by {
                assert forall|m: int, n: int|
                    0 <= m < n < i + 1 implies output_le(
                    #[trigger] cur.subrange(0, i + 1)[m],
                    #[trigger] cur.subrange(0, i + 1)[n],
                ) by {
                    assert(cur.subrange(0, i + 1)[m] == cur[m]);
                    assert(cur.subrange(0, i + 1)[n] == cur[n]);
                }
            }
            assert(prev[i as int] == x);
            assert(prev.contains(x));
            vstd::seq_lib::to_multiset_remove(prev, i as int);
            vstd::seq_lib::to_multiset_insert(mid, p as int, x);
            vstd::seq_lib::to_multiset_contains(prev, x);
            assert(prev.to_multiset().count(x) > 0);
            assert(cur.to_multiset() =~= prev.to_multiset());
            if outputs_sorted(orig) {
                assert(prev == orig);
                assert forall|k: int| 0 <= k < i implies output_le(#[trigger] mid[k], x) by {
                    assert(output_le(orig[k], orig[i as int]));
                }
                assert(p == i);
                assert(cur =~= orig);
            }
        }
        i = i + 1;
    }
    proof {
        assert(v@.subrange(0, v@.len() as int) =~= v@);
    }
}

/// The output list a seeded shuffle produces: a function of the starting
/// contents and the seed alone, since the generator is deterministic in
/// its seed.
pub uninterp spec fn shuffled_by_seed(outputs: Seq<TxOut>, seed: u64) -> Seq<TxOut>;

/// Relies on rand's `SliceRandom::shuffle` with `rand::thread_rng()`: a
/// Fisher-Yates pass over the slice, which permutes it in place. The
/// generator is fresh for this call; nothing beyond the permutation is
/// promised.
#[verifier::external_body]
fn shuffle_outputs(v: &mut Vec<TxOut>)
    ensures
        final(v)@.to_multiset() == old(v)@.to_multiset(),
{
    let mut rng = rand::thread_rng();
    v.shuffle(&mut rng);
}

/// Relies on rand's `StdRng::seed_from_u64` and `SliceRandom::shuffle`:
/// the generator is a deterministic function of the seed, so the
/// permutation the Fisher-Yates pass applies depends only on the starting
/// contents and the seed, and it permutes the slice in place.
#[verifier::external_body]
fn shuffle_outputs_seeded(v: &mut Vec<TxOut>, seed: u64)
    ensures
        final(v)@ == shuffled_by_seed(old(v)@, seed),
        final(v)@.to_multiset() == old(v)@.to_multiset(),
{
    let mut rng = rand::rngs::StdRng::seed_from_u64(seed);
    v.shuffle(&mut rng);
}

impl TxOrdering {
    /// Rearranges the transaction in place. `Untouched` leaves it exactly
    /// as given; `Shuffle` keeps the inputs and permutes the outputs with
    /// a fresh random source; `BIP69Lexicographic` sorts inputs ascending
    /// by (previous txid, previous vout) and outputs ascending by
    /// (amount, script bytes), and leaves an already-sorted transaction
    /// unchanged, so applying it twice gives the order one application
    /// gives.
    pub fn sort_tx(&self, tx: &mut Transaction)
        ensures
            final(tx).version == old(tx).version,
            final(tx).lock_time == old(tx).lock_time,
            *self is Untouched ==> *final(tx) == *old(tx),
            *self is Shuffle ==> final(tx).input == old(tx).input && final(tx).output@.to_multiset()
                == old(tx).output@.to_multiset(),
            *self is BIP69Lexicographic ==> {
                &&& inputs_sorted(final(tx).input@)
                &&& final(tx).input@.to_multiset() == old(tx).input@.to_multiset()
                &&& outputs_sorted(final(tx).output@)
                &&& final(tx).output@.to_multiset() == old(tx).output@.to_multiset()
                &&& inputs_sorted(old(tx).input@) && outputs_sorted(old(tx).output@)
                    ==> final(tx).input@ == old(tx).input@ && final(tx).output@ == old(
                    tx,
                ).output@
            },
    {
        match self {
            TxOrdering::Untouched => {},
            TxOrdering::Shuffle => {
                shuffle_outputs(&mut tx.output);
            },
            TxOrdering::BIP69Lexicographic => {
                sort_inputs(&mut tx.input);
                sort_outputs(&mut tx.output);
            },
        }
    }

    /// As `sort_tx`, with the random source made explicit: `Shuffle` draws
    /// from a generator seeded with `seed`, so the permutation is
    /// reproducible — the same transaction and seed give the same output
    /// order on every run.
    pub fn sort_tx_seeded(&self, tx: &mut Transaction, seed: u64)
        ensures
            final(tx).version == old(tx).version,
            final(tx).lock_time == old(tx).lock_time,
            *self is Untouched ==> *final(tx) == *old(tx),
            *self is Shuffle ==> final(tx).input == old(tx).input && final(tx).output@
                == shuffled_by_seed(old(tx).output@, seed) && final(tx).output@.to_multiset()
                == old(tx).output@.to_multiset(),
            *self is BIP69Lexicographic ==> {
                &&& inputs_sorted(final(tx).input@)
                &&& final(tx).input@.to_multiset() == old(tx).input@.to_multiset()
                &&& outputs_sorted(final(tx).output@)
                &&& final(tx).output@.to_multiset() == old(tx).output@.to_multiset()
                &&& inputs_sorted(old(tx).input@) && outputs_sorted(old(tx).output@)
                    ==> final(tx).input@ == old(tx).input@ && final(tx).output@ == old(
                    tx,
                ).output@
            },
    {
        match self {
            TxOrdering::Untouched => {},
            TxOrdering::Shuffle => {
                shuffle_outputs_seeded(&mut tx.output, seed);
            },
            TxOrdering::BIP69Lexicographic => {
                sort_inputs(&mut tx.input);
                sort_outputs(&mut tx.output);
            },
        }
    }
}

} // verus!
