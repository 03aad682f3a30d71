use tx_builder::types::Address;
use tx_builder::types::SighashType;
use tx_builder::ChangeSpendPolicy;
use tx_builder::FeeRate;
use tx_builder::OutPoint;
use tx_builder::TxBuilder;
use tx_builder::TxOrdering;
use tx_builder::TxOut;
use tx_builder::Txid;
use tx_builder::Utxo;
use tx_builder::Version;

fn outpoint(tag: u8, vout: u32) -> OutPoint {
    OutPoint {
        txid: Txid([tag; 32]),
        vout,
    }
}

fn get_test_utxos() -> Vec<Utxo> {
    vec![
        Utxo {
            outpoint: outpoint(0, 0),
            txout: TxOut {
                value: 0,
                script_pubkey: Vec::new(),
            },
            is_internal: false,
        },
        Utxo {
            outpoint: outpoint(0, 1),
            txout: TxOut {
                value: 0,
                script_pubkey: Vec::new(),
            },
            is_internal: true,
        },
    ]
}

#[test]
fn test_change_spend_policy_default() {
    let change_spend_policy = ChangeSpendPolicy::default();
    let filtered = change_spend_policy.filter_utxos(get_test_utxos());

    assert_eq!(filtered.len(), 2);
}

#[test]
fn test_change_spend_policy_no_internal() {
    let change_spend_policy = ChangeSpendPolicy::ChangeForbidden;
    let filtered = change_spend_policy.filter_utxos(get_test_utxos());

    assert_eq!(filtered.len(), 1);
    assert_eq!(filtered[0].is_internal, false);
}

#[test]
fn test_change_spend_policy_only_internal() {
    let change_spend_policy = ChangeSpendPolicy::OnlyChange;
    let filtered = change_spend_policy.filter_utxos(get_test_utxos());

    assert_eq!(filtered.len(), 1);
    assert_eq!(filtered[0].is_internal, true);
}

#[test]
fn test_change_spend_policy_partition() {
    let utxos = get_test_utxos();
    let all = ChangeSpendPolicy::ChangeAllowed.filter_utxos(utxos.clone());
    let only = ChangeSpendPolicy::OnlyChange.filter_utxos(utxos.clone());
    let forbidden = ChangeSpendPolicy::ChangeForbidden.filter_utxos(utxos.clone());

    assert_eq!(all, utxos);
    assert_eq!(only.len() + forbidden.len(), all.len());
    assert!(only.iter().all(|u| u.is_internal));
    assert!(forbidden.iter().all(|u| !u.is_internal));
    assert!(only.iter().all(|u| !forbidden.contains(u)));
}

#[test]
fn test_default_tx_version_1() {
    let version = Version::default();
    assert_eq!(version.0, 1);
}

#[test]
fn test_new_builder_defaults() {
    let builder = TxBuilder::new();

    assert!(builder.recipients.is_empty());
    assert!(!builder.send_all);
    assert_eq!(builder.ordering, TxOrdering::Shuffle);
    assert_eq!(builder.change_policy, ChangeSpendPolicy::ChangeAllowed);
    assert_eq!(builder.version, None);
    assert_eq!(builder.rbf, None);
}

#[test]
fn test_builder_accumulates_recipients() {
    let builder = TxBuilder::with_recipients(vec![(Address(String::from("addr-one")), 1200)])
        .add_recipient(Address(String::from("addr-two")), 3400);

    assert_eq!(builder.recipients.len(), 2);
    assert_eq!(builder.recipients[0].0, Address(String::from("addr-one")));
    assert_eq!(builder.recipients[0].1, 1200);
    assert_eq!(builder.recipients[1].1, 3400);
}

#[test]
fn test_builder_setters_record_fields() {
    let builder = TxBuilder::new()
        .send_all()
        .fee_rate(FeeRate(5000))
        .sighash(SighashType(1))
        .ordering(TxOrdering::BIP69Lexicographic)
        .nlocktime(654321)
        .version(2)
        .force_non_witness_utxo();

    assert!(builder.send_all);
    assert_eq!(builder.fee_rate, Some(FeeRate(5000)));
    assert_eq!(builder.sighash, Some(SighashType(1)));
    assert_eq!(builder.ordering, TxOrdering::BIP69Lexicographic);
    assert_eq!(builder.locktime, Some(654321));
    assert_eq!(builder.version, Some(Version(2)));
    assert!(builder.force_non_witness_utxo);
}

#[test]
fn test_enable_rbf_default_sequence() {
    let builder = TxBuilder::new().enable_rbf();

    assert_eq!(builder.rbf, Some(0xFFFFFFFD));
}

#[test]
fn test_enable_rbf_with_sequence() {
    let builder = TxBuilder::new().enable_rbf_with_sequence(0xDEADBEEF);

    assert_eq!(builder.rbf, Some(0xDEADBEEF));
}

#[test]
fn test_add_utxo_starts_list() {
    let a = outpoint(1, 0);
    let b = outpoint(2, 7);
    let builder = TxBuilder::new().add_utxo(a).add_utxo(b);

    assert_eq!(builder.utxos, Some(vec![a, b]));

    let builder = builder.add_unspendable(b);
    assert_eq!(builder.unspendable, Some(vec![b]));
}

#[test]
fn test_allow_list_precedence_over_deny_list() {
    let a = outpoint(1, 0);
    let b = outpoint(2, 1);
    let c = outpoint(3, 2);
    let builder = TxBuilder::new()
        .utxos(vec![a, b])
        .unspendable(vec![a, c]);

    // `a` stands on both lists: explicit inclusion wins.
    assert!(!builder.is_unspendable(&a));
    // `b` stands only on the allow-list.
    assert!(!builder.is_unspendable(&b));
    // `c` stands only on the deny-list.
    assert!(builder.is_unspendable(&c));
}

#[test]
fn test_coin_selection_swap_keeps_fields() {
    let builder = TxBuilder::new()
        .add_recipient(Address(String::from("addr-one")), 99)
        .enable_rbf()
        .do_not_spend_change()
        .coin_selection(tx_builder::DefaultCoinSelectionAlgorithm);

    assert_eq!(builder.recipients.len(), 1);
    assert_eq!(builder.rbf, Some(0xFFFFFFFD));
    assert_eq!(builder.change_policy, ChangeSpendPolicy::ChangeForbidden);
}

#[test]
fn test_change_policy_setters() {
    assert_eq!(
        TxBuilder::new().do_not_spend_change().change_policy,
        ChangeSpendPolicy::ChangeForbidden
    );
    assert_eq!(
        TxBuilder::new().only_spend_change().change_policy,
        ChangeSpendPolicy::OnlyChange
    );
    assert_eq!(
        TxBuilder::new()
            .change_policy(ChangeSpendPolicy::ChangeAllowed)
            .change_policy,
        ChangeSpendPolicy::ChangeAllowed
    );
}
