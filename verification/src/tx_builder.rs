//! The transaction-request builder: an immutable configuration accumulator.
//! Every configuration call consumes the builder and returns a new one with
//! a single field changed, so no shared builder state is ever mutated; the
//! finished value is handed to the assembly pipeline, which reads all the
//! fields.

use vstd::prelude::*;

use crate::change_policy::ChangeSpendPolicy;
use crate::coin_selection::CoinSelectionAlgorithm;
use crate::coin_selection::DefaultCoinSelectionAlgorithm;
use crate::ordering::TxOrdering;
use crate::types::Address;
use crate::types::FeeRate;
use crate::types::OutPoint;
use crate::types::PolicyPath;
use crate::types::SighashType;
use crate::types::Version;

verus! {

/// The sequence number that enabling replace-by-fee installs when the
/// caller names none: it signals replaceability while staying below the
/// two reserved "final" sentinel values.
pub const DEFAULT_RBF_SEQUENCE: u32 = 0xFFFFFFFD;

/// The mathematical value of a builder: every configuration field, with
/// the lists read as sequences.
#[verifier::ext_equal]
pub ghost struct BuilderSpec<Cs> {
    pub recipients: Seq<(Address, u64)>,
    pub send_all: bool,
    pub fee_rate: Option<FeeRate>,
    pub policy_path: Option<PolicyPath>,
    pub utxos: Option<Seq<OutPoint>>,
    pub unspendable: Option<Seq<OutPoint>>,
    pub sighash: Option<SighashType>,
    pub ordering: TxOrdering,
    pub locktime: Option<u32>,
    pub rbf: Option<u32>,
    pub version: Option<Version>,
    pub change_policy: ChangeSpendPolicy,
    pub force_non_witness_utxo: bool,
    pub coin_selection: Cs,
}

/// The sequence a maybe-absent outpoint list stands for: absent reads as
/// empty when an element is appended.
pub open spec fn opt_outpoints(o: Option<Seq<OutPoint>>) -> Seq<OutPoint> {
    match o {
        Option::Some(s) => s,
        Option::None => Seq::empty(),
    }
}

/// Accumulates every parameter of a transaction-construction request and
/// the coin-selection strategy the assembly pipeline will call.
pub struct TxBuilder<Cs: CoinSelectionAlgorithm> {
    pub recipients: Vec<(Address, u64)>,
    pub send_all: bool,
    pub fee_rate: Option<FeeRate>,
    pub policy_path: Option<PolicyPath>,
    pub utxos: Option<Vec<OutPoint>>,
    pub unspendable: Option<Vec<OutPoint>>,
    pub sighash: Option<SighashType>,
    pub ordering: TxOrdering,
    pub locktime: Option<u32>,
    pub rbf: Option<u32>,
    pub version: Option<Version>,
    pub change_policy: ChangeSpendPolicy,
    pub force_non_witness_utxo: bool,
    pub coin_selection: Cs,
}

impl<Cs: CoinSelectionAlgorithm> View for TxBuilder<Cs> {
    type V = BuilderSpec<Cs>;

    open spec fn view(&self) -> BuilderSpec<Cs> {
        BuilderSpec {
            recipients: self.recipients@,
            send_all: self.send_all,
            fee_rate: self.fee_rate,
            policy_path: self.policy_path,
            utxos: match self.utxos {
                Option::Some(v) => Option::Some(v@),
                Option::None => Option::None,
            },
            unspendable: match self.unspendable {
                Option::Some(v) => Option::Some(v@),
                Option::None => Option::None,
            },
            sighash: self.sighash,
            ordering: self.ordering,
            locktime: self.locktime,
            rbf: self.rbf,
            version: self.version,
            change_policy: self.change_policy,
            force_non_witness_utxo: self.force_non_witness_utxo,
            coin_selection: self.coin_selection,
        }
    }
}

impl TxBuilder<DefaultCoinSelectionAlgorithm> {
    /// A fresh builder: no recipients, nothing configured, every optional
    /// field absent, the default ordering, change policy and selector.
    pub fn new() -> (r: Self)
        ensures
            r@.recipients == Seq::<(Address, u64)>::empty(),
            !r@.send_all,
            r@.fee_rate is None,
            r@.policy_path is None,
            r@.utxos is None,
            r@.unspendable is None,
            r@.sighash is None,
            r@.ordering == TxOrdering::Shuffle,
            r@.locktime is None,
            r@.rbf is None,
            r@.version is None,
            r@.change_policy == ChangeSpendPolicy::ChangeAllowed,
            !r@.force_non_witness_utxo,
    {
        TxBuilder {
            recipients: Vec::new(),
            send_all: false,
            fee_rate: None,
            policy_path: None,
            utxos: None,
            unspendable: None,
            sighash: None,
            ordering: TxOrdering::Shuffle,
            locktime: None,
            rbf: None,
            version: None,
            change_policy: ChangeSpendPolicy::ChangeAllowed,
            force_non_witness_utxo: false,
            coin_selection: DefaultCoinSelectionAlgorithm,
        }
    }

    /// A fresh builder that already carries the given recipients.
    pub fn with_recipients(recipients: Vec<(Address, u64)>) -> (r: Self)
        ensures
            r@ == (BuilderSpec { recipients: recipients@, ..Self::new_spec() }),
    {
        Self::new().set_recipients(recipients)
    }

    /// The value `new` returns.
    pub open spec fn new_spec() -> BuilderSpec<DefaultCoinSelectionAlgorithm> {
        BuilderSpec {
            recipients: Seq::empty(),
            send_all: false,
            fee_rate: Option::None,
            policy_path: Option::None,
            utxos: Option::None,
            unspendable: Option::None,
            sighash: Option::None,
            ordering: TxOrdering::Shuffle,
            locktime: Option::None,
            rbf: Option::None,
            version: Option::None,
            change_policy: ChangeSpendPolicy::ChangeAllowed,
            force_non_witness_utxo: false,
            coin_selection: DefaultCoinSelectionAlgorithm,
        }
    }
}

impl<Cs: CoinSelectionAlgorithm> TxBuilder<Cs> {
    /// Replaces the recipient list.
    pub fn set_recipients(self, recipients: Vec<(Address, u64)>) -> (r: Self)
        ensures
            r@ == (BuilderSpec { recipients: recipients@, ..self@ }),
    {
        let mut b = self;
        b.recipients = recipients;
        b
    }

    /// Appends one recipient.
    pub fn add_recipient(self, address: Address, amount: u64) -> (r: Self)
        ensures
            r@ == (BuilderSpec { recipients: self@.recipients.push((address, amount)), ..self@ }),
    {
        let mut b = self;
        b.recipients.push((address, amount));
        b
    }

    /// Marks the request as sending all available funds.
    pub fn send_all(self) -> (r: Self)
        ensures
            r@ == (BuilderSpec { send_all: true, ..self@ }),
    {
        let mut b = self;
        b.send_all = true;
        b
    }

    /// Sets the fee rate, replacing any previous value.
    pub fn fee_rate(self, fee_rate: FeeRate) -> (r: Self)
        ensures
            r@ == (BuilderSpec { fee_rate: Option::Some(fee_rate), ..self@ }),
    {
        let mut b = self;
        b.fee_rate = Some(fee_rate);
        b
    }

    /// Sets the policy path, replacing any previous value.
    pub fn policy_path(self, policy_path: PolicyPath) -> (r: Self)
        ensures
            r@ == (BuilderSpec { policy_path: Option::Some(policy_path), ..self@ }),
    {
        let mut b = self;
        b.policy_path = Some(policy_path);
        b
    }

    /// Replaces the UTXO allow-list. Entries here take precedence over the
    /// deny-list: an outpoint on both lists stays spendable.
    pub fn utxos(self, utxos: Vec<OutPoint>) -> (r: Self)
        ensures
            r@ == (BuilderSpec { utxos: Option::Some(utxos@), ..self@ }),
    {
        let mut b = self;
        b.utxos = Some(utxos);
        b
    }

    /// Appends one outpoint to the allow-list, starting it from empty when
    /// it was absent. Allow-list entries take precedence over the
    /// deny-list.
    pub fn add_utxo(self, utxo: OutPoint) -> (r: Self)
        ensures
            r@ == (BuilderSpec {
                utxos: Option::Some(opt_outpoints(self@.utxos).push(utxo)),
                ..self@
            }),
    {
        let mut b = self;
        let mut list = match b.utxos {
            Some(l) => l,
            None => Vec::new(),
        };
        list.push(utxo);
        b.utxos = Some(list);
        b
    }

    /// Replaces the UTXO deny-list.
    pub fn unspendable(self, unspendable: Vec<OutPoint>) -> (r: Self)
        ensures
            r@ == (BuilderSpec { unspendable: Option::Some(unspendable@), ..self@ }),
    {
        let mut b = self;
        b.unspendable = Some(unspendable);
        b
    }

    /// Appends one outpoint to the deny-list, starting it from empty when
    /// it was absent.
    pub fn add_unspendable(self, unspendable: OutPoint) -> (r: Self)
        ensures
            r@ == (BuilderSpec {
                unspendable: Option::Some(opt_outpoints(self@.unspendable).push(unspendable)),
                ..self@
            }),
    {
        let mut b = self;
        let mut list = match b.unspendable {
            Some(l) => l,
            None => Vec::new(),
        };
        list.push(unspendable);
        b.unspendable = Some(list);
        b
    }

    /// Sets the signature-hash mode, replacing any previous value.
    pub fn sighash(self, sighash: SighashType) -> (r: Self)
        ensures
            r@ == (BuilderSpec { sighash: Option::Some(sighash), ..self@ }),
    {
        let mut b = self;
        b.sighash = Some(sighash);
        b
    }

    /// Sets the ordering strategy, replacing the default `Shuffle`.
    pub fn ordering(self, ordering: TxOrdering) -> (r: Self)
        ensures
            r@ == (BuilderSpec { ordering: ordering, ..self@ }),
    {
        let mut b = self;
        b.ordering = ordering;
        b
    }

    /// Sets the locktime; absence lets the assembler choose.
    pub fn nlocktime(self, locktime: u32) -> (r: Self)
        ensures
            r@ == (BuilderSpec { locktime: Option::Some(locktime), ..self@ }),
    {
        let mut b = self;
        b.locktime = Some(locktime);
        b
    }

    /// Enables replace-by-fee with the default signalling sequence number.
    pub fn enable_rbf(self) -> (r: Self)
        ensures
            r@ == (BuilderSpec { rbf: Option::Some(DEFAULT_RBF_SEQUENCE), ..self@ }),
    {
        self.enable_rbf_with_sequence(DEFAULT_RBF_SEQUENCE)
    }

    /// Enables replace-by-fee with a caller-chosen sequence number.
    pub fn enable_rbf_with_sequence(self, nsequence: u32) -> (r: Self)
        ensures
            r@ == (BuilderSpec { rbf: Option::Some(nsequence), ..self@ }),
    {
        let mut b = self;
        b.rbf = Some(nsequence);
        b
    }

    /// Sets the transaction version override; absence defaults to 1.
    pub fn version(self, version: u32) -> (r: Self)
        ensures
            r@ == (BuilderSpec { version: Option::Some(Version(version)), ..self@ }),
    {
        let mut b = self;
        b.version = Some(Version(version));
        b
    }

    /// Forbids spending wallet-internal (change) UTXOs.
    pub fn do_not_spend_change(self) -> (r: Self)
        ensures
            r@ == (BuilderSpec { change_policy: ChangeSpendPolicy::ChangeForbidden, ..self@ }),
    {
        let mut b = self;
        b.change_policy = ChangeSpendPolicy::ChangeForbidden;
        b
    }

    /// Restricts spending to wallet-internal (change) UTXOs.
    pub fn only_spend_change(self) -> (r: Self)
        ensures
            r@ == (BuilderSpec { change_policy: ChangeSpendPolicy::OnlyChange, ..self@ }),
    {
        let mut b = self;
        b.change_policy = ChangeSpendPolicy::OnlyChange;
        b
    }

    /// Sets the change-spend policy to an explicit value.
    pub fn change_policy(self, change_policy: ChangeSpendPolicy) -> (r: Self)
        ensures
            r@ == (BuilderSpec { change_policy: change_policy, ..self@ }),
    {
        let mut b = self;
        b.change_policy = change_policy;
        b
    }

    /// Forces the legacy, non-witness UTXO representation in the partially
    /// signed transaction the assembler builds.
    pub fn force_non_witness_utxo(self) -> (r: Self)
        ensures
            r@ == (BuilderSpec { force_non_witness_utxo: true, ..self@ }),
    {
        let mut b = self;
        b.force_non_witness_utxo = true;
        b
    }

    /// Swaps the coin-selection strategy, copying every other field
    /// verbatim.
    pub fn coin_selection<P: CoinSelectionAlgorithm>(self, coin_selection: P) -> (r: TxBuilder<P>)
        ensures
            r@ == (BuilderSpec {
                recipients: self@.recipients,
                send_all: self@.send_all,
                fee_rate: self@.fee_rate,
                policy_path: self@.policy_path,
                utxos: self@.utxos,
                unspendable: self@.unspendable,
                sighash: self@.sighash,
                ordering: self@.ordering,
                locktime: self@.locktime,
                rbf: self@.rbf,
                version: self@.version,
                change_policy: self@.change_policy,
                force_non_witness_utxo: self@.force_non_witness_utxo,
                coin_selection: coin_selection,
            }),
    {
        TxBuilder {
            recipients: self.recipients,
            send_all: self.send_all,
            fee_rate: self.fee_rate,
            policy_path: self.policy_path,
            utxos: self.utxos,
            unspendable: self.unspendable,
            sighash: self.sighash,
            ordering: self.ordering,
            locktime: self.locktime,
            rbf: self.rbf,
            version: self.version,
            change_policy: self.change_policy,
            force_non_witness_utxo: self.force_non_witness_utxo,
            coin_selection,
        }
    }

    /// The outpoint stands on the allow-list.
    pub open spec fn allow_listed(self, outpoint: OutPoint) -> bool {
        match self.utxos {
            Option::Some(v) => v@.contains(outpoint),
            Option::None => false,
        }
    }

    /// The outpoint stands on the deny-list.
    pub open spec fn deny_listed(self, outpoint: OutPoint) -> bool {
        match self.unspendable {
            Option::Some(v) => v@.contains(outpoint),
            Option::None => false,
        }
    }

    /// Whether this request rules the outpoint out: it is unspendable
    /// exactly when the deny-list names it and the allow-list does not —
    /// explicit inclusion always wins over exclusion.
    pub fn is_unspendable(&self, outpoint: &OutPoint) -> (r: bool)
        ensures
            r == (self.deny_listed(*outpoint) && !self.allow_listed(*outpoint)),
    {
        let denied = match &self.unspendable {
            Some(list) => outpoint_list_contains(list, outpoint),
            None => false,
        };
        let allowed = match &self.utxos {
            Some(list) => outpoint_list_contains(list, outpoint),
            None => false,
        };
        denied && !allowed
    }
}

impl Default for TxBuilder<DefaultCoinSelectionAlgorithm> {
    /// The default builder is the fresh one `new` returns.
    fn default() -> (r: Self)
        ensures
            r@ == TxBuilder::<DefaultCoinSelectionAlgorithm>::new_spec(),
    {
        let r = TxBuilder::new();
        proof {
            assert(r@ =~= TxBuilder::<DefaultCoinSelectionAlgorithm>::new_spec());
        }
        r
    }
}

/// Whether the list holds the given outpoint.
fn outpoint_list_contains(list: &Vec<OutPoint>, outpoint: &OutPoint) -> (r: bool)
    ensures
        r == list@.contains(*outpoint),
{
    let mut i: usize = 0;
    while i < list.len()
        invariant
            i <= list@.len(),
            forall|k: int| 0 <= k < i ==> #[trigger] list@[k] != *outpoint,
        decreases list@.len() - i,
    {
        if outpoint_eq(&list[i], outpoint) {
            return true;
        }
        i = i + 1;
    }
    false
}

/// Whether two outpoints are the same reference: same txid bytes, same
/// output index.
fn outpoint_eq(a: &OutPoint, b: &OutPoint) -> (r: bool)
    ensures
        r == (*a == *b),
{
    broadcast use vstd::array::group_array_axioms;

    if a.vout != b.vout {
        return false;
    }
    let mut i: usize = 0;
    while i < 32
        invariant
            i <= 32,
            a.vout == b.vout,
            forall|k: int| 0 <= k < i ==> a.txid.0@[k] == b.txid.0@[k],
        decreases 32 - i,
    {
        if a.txid.0[i] != b.txid.0[i] {
            return false;
        }
        i = i + 1;
    }
    proof {
        assert(a.txid.0 =~= b.txid.0);
    }
    true
}

} // verus!
