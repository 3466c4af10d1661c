use ledger_core::keys;
use ledger_core::tx_metarecord::TxMetaRecord;

#[test]
fn test_tx_meta_record() {
    let hash = keys::Hash::new([2; 32]);
    let status = false;
    let datum = TxMetaRecord::new(&hash, status);

    let datum = datum.clone();
    assert_eq!(datum.tx_hash(), &hash);
    assert_eq!(datum.execution_status(), status);
}

#[test]
fn record_of_an_applied_operation() {
    let hash = keys::Hash::new([7; 32]);
    let datum = TxMetaRecord::new(&hash, true);
    assert_eq!(datum.tx_hash(), &hash);
    assert!(datum.execution_status());
    assert_ne!(datum, TxMetaRecord::new(&hash, false));
}
