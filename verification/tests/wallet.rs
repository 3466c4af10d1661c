use ledger_core::keys;
use ledger_core::keys::PublicKey;
use ledger_core::wallet::Wallet;

fn assert_wallet(
    wallet: &Wallet,
    pub_key: &PublicKey,
    login: &str,
    balance: u64,
    history_len: u64,
    history_hash: &keys::Hash,
) {
    assert_eq!(wallet.pub_key(), pub_key);
    assert_eq!(wallet.login(), login);
    assert_eq!(wallet.balance(), balance);
    assert_eq!(wallet.history_hash(), history_hash);
    assert_eq!(wallet.history_len(), history_len);
}

#[test]
fn test_wallet() {
    let hash = keys::Hash::new([2; 32]);
    let login = "foobar abacaba Юникод всяуи";
    let pub_key = PublicKey::from_slice([1u8; 32].as_ref()).unwrap();
    let wallet = Wallet::new(&pub_key, login, 100500, 0, &hash);

    let wallet = wallet.clone();
    assert_wallet(&wallet, &pub_key, login, 100500, 0, &hash);
}

#[test]
fn test_amount_transfer() {
    let hash = keys::Hash::new([5; 32]);
    let pub_key_1 = PublicKey::from_slice([1u8; 32].as_ref()).unwrap();
    let pub_key_2 = PublicKey::from_slice([2u8; 32].as_ref()).unwrap();
    let mut a = Wallet::new(&pub_key_1, "a", 100, 12, &hash);
    let mut b = Wallet::new(&pub_key_2, "b", 0, 14, &hash);
    a.transfer_to(&mut b, 50);
    a.grow_length_set_history_hash(&hash);
    b.grow_length_set_history_hash(&hash);
    assert_eq!(a.balance(), 50);
    assert_eq!(a.history_len(), 13);
    assert_eq!(b.balance(), 50);
    assert_eq!(b.history_len(), 15);
}

#[test]
fn test_same_wallet_transfer() {
    let hash = keys::Hash::new([5; 32]);
    let pub_key = PublicKey::from_slice([1u8; 32].as_ref()).unwrap();
    let mut a1 = Wallet::new(&pub_key, "a", 100, 12, &hash);
    let mut a2 = Wallet::new(&pub_key, "a", 100, 12, &hash);
    assert_eq!(a1.transfer_to(&mut a2, 50), false);
    assert_eq!(a2.transfer_to(&mut a1, 50), false);
}

#[test]
fn same_wallet_transfer_changes_nothing() {
    let hash = keys::Hash::new([5; 32]);
    let pub_key = PublicKey::new([1u8; 32]);
    let mut a1 = Wallet::new(&pub_key, "a", 100, 12, &hash);
    let mut a2 = Wallet::new(&pub_key, "a", 100, 12, &hash);
    assert!(!a1.transfer_to(&mut a2, 50));
    assert_wallet(&a1, &pub_key, "a", 100, 12, &hash);
    assert_wallet(&a2, &pub_key, "a", 100, 12, &hash);
}

#[test]
fn transfer_of_more_than_the_balance_is_refused() {
    let hash = keys::Hash::new([5; 32]);
    let mut a = Wallet::new(&PublicKey::new([1u8; 32]), "a", 100, 0, &hash);
    let mut b = Wallet::new(&PublicKey::new([2u8; 32]), "b", 7, 0, &hash);
    assert!(!a.transfer_to(&mut b, 101));
    assert_eq!(a.balance(), 100);
    assert_eq!(b.balance(), 7);
    assert!(a.transfer_to(&mut b, 100));
    assert_eq!(a.balance(), 0);
    assert_eq!(b.balance(), 107);
}

#[test]
fn transfer_keeps_the_sum_of_balances() {
    let hash = keys::Hash::new([0; 32]);
    let mut a = Wallet::new(&PublicKey::new([1u8; 32]), "a", 1_000, 0, &hash);
    let mut b = Wallet::new(&PublicKey::new([2u8; 32]), "b", 23, 0, &hash);
    assert!(a.transfer_to(&mut b, 1));
    assert_eq!(a.balance() + b.balance(), 1_023);
    assert!(a.transfer_to(&mut b, 0));
    assert_eq!(a.balance(), 999);
    assert_eq!(b.balance(), 24);
}

#[test]
fn set_balance_overwrites_only_the_balance() {
    let hash = keys::Hash::new([9; 32]);
    let key = PublicKey::new([3u8; 32]);
    let mut w = Wallet::new(&key, "carol", 5, 4, &hash);
    w.set_balance(77);
    assert_wallet(&w, &key, "carol", 77, 4, &hash);
}

#[test]
fn history_event_grows_length_and_sets_digest() {
    let key = PublicKey::new([3u8; 32]);
    let mut w = Wallet::new(&key, "carol", 5, 4, &keys::Hash::new([9; 32]));
    let next = keys::Hash::new([10; 32]);
    w.grow_length_set_history_hash(&next);
    assert_wallet(&w, &key, "carol", 5, 5, &next);
}

#[test]
fn consuming_updates_return_the_changed_wallet() {
    let key = PublicKey::new([3u8; 32]);
    let first = keys::Hash::new([1; 32]);
    let second = keys::Hash::new([2; 32]);
    let w = Wallet::new(&key, "carol", 100, 1, &first);
    let w = w.increase_balance(15);
    assert_wallet(&w, &key, "carol", 115, 1, &first);
    let w = w.decrease_balance(115);
    assert_wallet(&w, &key, "carol", 0, 1, &first);
    let w = w.update_history_hash(second);
    assert_wallet(&w, &key, "carol", 0, 2, &second);
}

#[test]
fn keys_are_read_from_slices_of_32_bytes_only() {
    assert!(PublicKey::from_slice(&[1u8; 31]).is_none());
    assert!(PublicKey::from_slice(&[1u8; 33]).is_none());
    assert!(keys::Hash::from_slice(&[]).is_none());
    let mut bytes = [0u8; 32];
    bytes[0] = 200;
    bytes[31] = 7;
    assert_eq!(PublicKey::from_slice(&bytes).unwrap().bytes, bytes);
    assert_eq!(keys::Hash::from_slice(&bytes).unwrap(), keys::Hash::new(bytes));
    assert_eq!(keys::Hash::zero().bytes, [0u8; 32]);
}

#[test]
fn keys_differ_when_one_byte_differs() {
    let a = [4u8; 32];
    let mut b = a;
    b[31] = 5;
    assert!(PublicKey::new(a) == PublicKey::new(a));
    assert!(PublicKey::new(a) != PublicKey::new(b));
    assert!(keys::bytes_equal(&a, &a));
    assert!(!keys::bytes_equal(&a, &b));
}
