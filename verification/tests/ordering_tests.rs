use tx_builder::OutPoint;
use tx_builder::Transaction;
use tx_builder::TxIn;
use tx_builder::TxOrdering;
use tx_builder::TxOut;
use tx_builder::Txid;

// The two previous-transaction ids the ordering test vector references, in
// canonical byte order. Their display forms (reversed hex) are
// 0f60fdd185542f2c6ea19030b0796051e7772b6026dd5ddccd7a2f93b73e6fc2 and
// 0e53ec5dfb2cb8a71fec32dc9a634a35b7e24799295ddd5278217822e0b31f57.
fn txid_a() -> Txid {
    Txid([
        0xc2, 0x6f, 0x3e, 0xb7, 0x93, 0x2f, 0x7a, 0xcd, 0xdc, 0x5d, 0xdd, 0x26, 0x60, 0x2b, 0x77,
        0xe7, 0x51, 0x60, 0x79, 0xb0, 0x30, 0x90, 0xa1, 0x6e, 0x2c, 0x2f, 0x54, 0x85, 0xd1, 0xfd,
        0x60, 0x0f,
    ])
}

fn txid_b() -> Txid {
    Txid([
        0x57, 0x1f, 0xb3, 0xe0, 0x22, 0x78, 0x21, 0x78, 0x52, 0xdd, 0x5d, 0x29, 0x99, 0x47, 0xe2,
        0xb7, 0x35, 0x4a, 0x63, 0x9a, 0xdc, 0x32, 0xec, 0x1f, 0xa7, 0xb8, 0x2c, 0xfb, 0x5d, 0xec,
        0x53, 0x0e,
    ])
}

fn input(txid: Txid, vout: u32) -> TxIn {
    TxIn {
        previous_output: OutPoint { txid, vout },
        sequence: 0xFFFFFFFF,
    }
}

fn output(value: u64, script: Vec<u8>) -> TxOut {
    TxOut {
        value,
        script_pubkey: script,
    }
}

// The transaction every ordering test starts from: three inputs spending
// outputs 1 and 0 of one prior transaction and output 5 of another, and
// three outputs of 1000, 1000 and 800 units with distinct scripts.
fn ordering_test_tx() -> Transaction {
    Transaction {
        version: 2,
        lock_time: 0,
        input: vec![
            input(txid_a(), 1),
            input(txid_a(), 0),
            input(txid_b(), 5),
        ],
        output: vec![
            output(1000, vec![0xAA, 0xEE]),
            output(1000, vec![0xAA]),
            output(800, vec![0xFF]),
        ],
    }
}

#[test]
fn test_output_ordering_default_shuffle() {
    assert_eq!(TxOrdering::default(), TxOrdering::Shuffle);
}

#[test]
fn test_output_ordering_untouched() {
    let original_tx = ordering_test_tx();
    let mut tx = original_tx.clone();

    TxOrdering::Untouched.sort_tx(&mut tx);

    assert_eq!(original_tx, tx);
}

#[test]
fn test_output_ordering_shuffle() {
    let original_tx = ordering_test_tx();
    let mut tx = original_tx.clone();

    TxOrdering::Shuffle.sort_tx_seeded(&mut tx, 2);

    assert_eq!(original_tx.input, tx.input);
    assert_ne!(original_tx.output, tx.output);
}

#[test]
fn test_output_ordering_bip69() {
    let original_tx = ordering_test_tx();
    let mut tx = original_tx.clone();

    TxOrdering::BIP69Lexicographic.sort_tx(&mut tx);

    assert_eq!(
        tx.input[0].previous_output,
        OutPoint {
            txid: txid_b(),
            vout: 5
        }
    );
    assert_eq!(
        tx.input[1].previous_output,
        OutPoint {
            txid: txid_a(),
            vout: 0
        }
    );
    assert_eq!(
        tx.input[2].previous_output,
        OutPoint {
            txid: txid_a(),
            vout: 1
        }
    );

    assert_eq!(tx.output[0].value, 800);
    assert_eq!(tx.output[1].script_pubkey, vec![0xAA]);
    assert_eq!(tx.output[2].script_pubkey, vec![0xAA, 0xEE]);
}

#[test]
fn test_output_ordering_bip69_idempotent() {
    let mut tx = ordering_test_tx();
    TxOrdering::BIP69Lexicographic.sort_tx(&mut tx);
    let once = tx.clone();

    TxOrdering::BIP69Lexicographic.sort_tx(&mut tx);

    assert_eq!(once, tx);
}

#[test]
fn test_output_ordering_shuffle_reproducible() {
    let original_tx = ordering_test_tx();

    let mut first = original_tx.clone();
    TxOrdering::Shuffle.sort_tx_seeded(&mut first, 42);
    let mut second = original_tx.clone();
    TxOrdering::Shuffle.sort_tx_seeded(&mut second, 42);

    assert_eq!(first, second);
}

#[test]
fn test_output_ordering_shuffle_keeps_outputs() {
    let original_tx = ordering_test_tx();
    let mut tx = original_tx.clone();

    TxOrdering::Shuffle.sort_tx(&mut tx);

    assert_eq!(original_tx.input, tx.input);
    let mut expected = original_tx.output.clone();
    let mut got = tx.output.clone();
    expected.sort_by(|a, b| (a.value, &a.script_pubkey).cmp(&(b.value, &b.script_pubkey)));
    got.sort_by(|a, b| (a.value, &a.script_pubkey).cmp(&(b.value, &b.script_pubkey)));
    assert_eq!(expected, got);
}
