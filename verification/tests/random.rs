use ledger_core::error::Error;
use ledger_core::keys;
use ledger_core::keys::PublicKey;
use ledger_core::ledger::Ledger;
use ledger_core::operation::HistoryDigests;
use ledger_core::operation::Operation;
use ledger_core::tx_metarecord::TxMetaRecord;
use ledger_core::wallet::Wallet;
use rand::Rng;
use rand::RngCore;

fn random_hash<R: RngCore>(rng: &mut R) -> keys::Hash {
    let mut bytes = [0u8; 32];
    rng.fill_bytes(&mut bytes);
    keys::Hash::new(bytes)
}

fn numbered(n: u32) -> keys::Hash {
    let mut bytes = [0u8; 32];
    bytes[..4].copy_from_slice(&n.to_be_bytes());
    keys::Hash::new(bytes)
}

#[test]
fn random_wallets_keep_their_fields() {
    let mut rng = rand::thread_rng();
    for _ in 0..50 {
        let mut key_bytes = [0u8; 32];
        rng.fill_bytes(&mut key_bytes);
        let key = PublicKey::new(key_bytes);
        let len: usize = rng.gen_range(20..255);
        let login: String = (0..len).map(|_| rng.gen_range(b'a'..=b'z') as char).collect();
        let balance = rng.next_u64();
        let history_len = rng.next_u64();
        let hash = random_hash(&mut rng);
        let wallet = Wallet::new(&key, &login, balance, history_len, &hash);
        let copy = wallet.clone();
        assert_eq!(wallet, copy);
        assert_eq!(copy.pub_key(), &key);
        assert_eq!(copy.login(), login);
        assert_eq!(copy.balance(), balance);
        assert_eq!(copy.history_len(), history_len);
        assert_eq!(copy.history_hash(), &hash);
    }
}

#[test]
fn random_records_keep_their_fields() {
    let mut rng = rand::thread_rng();
    for _ in 0..50 {
        let hash = random_hash(&mut rng);
        let status = rng.gen_bool(0.5);
        let datum = TxMetaRecord::new(&hash, status);
        assert_eq!(datum.tx_hash(), &hash);
        assert_eq!(datum.execution_status(), status);
        assert_eq!(datum, datum.clone());
    }
}

#[test]
fn random_deliveries_conserve_value() {
    let mut rng = rand::thread_rng();
    let owners: Vec<PublicKey> = (1u8..=6).map(|n| PublicKey::new([n; 32])).collect();
    let mut ledger = Ledger::new();
    let mut expected: u64 = 0;
    let mut opened: Vec<keys::Hash> = Vec::new();
    for n in 0u32..400 {
        let author = owners[rng.gen_range(0..owners.len())];
        let other = owners[rng.gen_range(0..owners.len())];
        let op_id = numbered(n);
        let op = match rng.gen_range(0..6) {
            0 => Operation::CreateAccount { display_name: format!("owner {}", n) },
            1 => Operation::Issue { amount: rng.gen_range(0..500) },
            2 => Operation::Transfer { to: other, amount: rng.gen_range(0..300) },
            3 => {
                let count = rng.gen_range(0..4);
                let approvers = (0..count).map(|_| owners[rng.gen_range(0..owners.len())]).collect();
                Operation::EscrowTransfer { to: other, approvers, amount: rng.gen_range(0..300) }
            },
            4 => Operation::ApproveEscrow {
                escrow_id: if opened.is_empty() { numbered(n) } else { opened[rng.gen_range(0..opened.len())] },
            },
            _ => Operation::RejectEscrow {
                escrow_id: if opened.is_empty() { numbered(n) } else { opened[rng.gen_range(0..opened.len())] },
            },
        };
        let before = ledger.clone();
        let minted = op.minted();
        let is_escrow = matches!(op, Operation::EscrowTransfer { .. });
        let digests = HistoryDigests::new(&random_hash(&mut rng), &random_hash(&mut rng));
        let verdict = ledger.verdict(&author, &op);
        let outcome: Result<(), Error> = ledger.submit(author, op_id, &op, digests).unwrap();
        assert_eq!(outcome, verdict);
        match outcome {
            Ok(()) => {
                expected += minted;
                if is_escrow {
                    opened.push(op_id);
                }
            },
            Err(_) => {
                for owner in owners.iter() {
                    assert_eq!(ledger.wallet(owner), before.wallet(owner));
                }
                for escrow_id in opened.iter() {
                    assert_eq!(ledger.escrow(escrow_id), before.escrow(escrow_id));
                }
            },
        }
        for escrow_id in opened.iter() {
            let was = before.escrow(escrow_id);
            if let Some(was) = was {
                if !was.is_pending() {
                    assert_eq!(ledger.escrow(escrow_id), Some(was));
                }
            }
        }
        assert_eq!(ledger.total_value(), expected);
        assert_eq!(ledger.operation_count(), n as usize + 1);
    }
}
