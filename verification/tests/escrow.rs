use ledger_core::error::Error;
use ledger_core::escrow::contains_key;
use ledger_core::escrow::distinct_keys;
use ledger_core::escrow::keys_within;
use ledger_core::escrow::EscrowState;
use ledger_core::escrow::PendingEscrow;
use ledger_core::escrow::MAX_APPROVERS;
use ledger_core::keys::PublicKey;

fn key(n: u8) -> PublicKey {
    PublicKey::new([n; 32])
}

fn opened(approvers: &[u8]) -> PendingEscrow {
    let list: Vec<PublicKey> = approvers.iter().map(|n| key(*n)).collect();
    PendingEscrow::open(key(1), key(2), &list, 10).unwrap()
}

#[test]
fn a_new_escrow_is_pending_without_approvals() {
    let e = opened(&[3, 4]);
    assert_eq!(e.initiator, key(1));
    assert_eq!(e.beneficiary, key(2));
    assert_eq!(e.approvers, vec![key(3), key(4)]);
    assert_eq!(e.amount, 10);
    assert_eq!(e.state, EscrowState::Pending);
    assert!(e.approved_by.is_empty());
    assert!(e.is_pending());
    assert!(!e.is_done());
    assert!(!e.is_rejected());
    assert!(!e.is_complete());
}

#[test]
fn an_escrow_without_approvers_is_refused() {
    let r = PendingEscrow::open(key(1), key(2), &Vec::new(), 10);
    assert_eq!(r, Err(Error::EmptyApprovers));
}

#[test]
fn an_escrow_with_six_distinct_approvers_is_refused() {
    let list: Vec<PublicKey> = (10u8..16).map(key).collect();
    assert_eq!(list.len(), MAX_APPROVERS + 1);
    let r = PendingEscrow::open(key(1), key(2), &list, 10);
    assert_eq!(r, Err(Error::TooManyApprovers));
}

#[test]
fn five_distinct_approvers_are_accepted() {
    let list: Vec<PublicKey> = (10u8..15).map(key).collect();
    let e = PendingEscrow::open(key(1), key(2), &list, 10).unwrap();
    assert_eq!(e.approvers.len(), 5);
}

#[test]
fn repeated_approvers_count_once() {
    let list = vec![key(3), key(4), key(3), key(3), key(4), key(5), key(3)];
    assert_eq!(distinct_keys(&list), vec![key(3), key(4), key(5)]);
    let e = PendingEscrow::open(key(1), key(2), &list, 10).unwrap();
    assert_eq!(e.approvers, vec![key(3), key(4), key(5)]);
}

#[test]
fn the_last_approval_completes_the_escrow() {
    let e = opened(&[3, 4]);
    let e = e.approve(key(4)).unwrap();
    assert_eq!(e.state, EscrowState::Pending);
    assert_eq!(e.approved_by, vec![key(4)]);
    let e = e.approve(key(3)).unwrap();
    assert_eq!(e.state, EscrowState::Done);
    assert_eq!(e.approved_by, vec![key(4), key(3)]);
    assert!(e.is_done());
    assert!(e.is_complete());
}

#[test]
fn a_repeated_approval_changes_nothing() {
    let e = opened(&[3, 4]).approve(key(3)).unwrap();
    let again = e.clone().approve(key(3)).unwrap();
    assert_eq!(again, e);
    assert_eq!(again.state, EscrowState::Pending);
}

#[test]
fn an_approval_of_a_done_escrow_changes_nothing() {
    let e = opened(&[3]).approve(key(3)).unwrap();
    assert!(e.is_done());
    let again = e.clone().approve(key(3)).unwrap();
    assert_eq!(again, e);
}

#[test]
fn an_approval_by_a_stranger_hands_the_escrow_back() {
    let e = opened(&[3, 4]);
    let back = e.clone().approve(key(9)).unwrap_err();
    assert_eq!(back, e);
}

#[test]
fn a_rejection_by_one_approver_settles_the_escrow() {
    let e = opened(&[3, 4]).approve(key(3)).unwrap();
    let e = e.reject(key(4)).unwrap();
    assert_eq!(e.state, EscrowState::Rejected);
    assert!(e.is_rejected());
    assert_eq!(e.approved_by, vec![key(3)]);
}

#[test]
fn a_rejected_escrow_takes_no_approval() {
    let e = opened(&[3, 4]).reject(key(3)).unwrap();
    let back = e.clone().approve(key(4)).unwrap_err();
    assert_eq!(back, e);
}

#[test]
fn a_rejection_by_a_stranger_hands_the_escrow_back() {
    let e = opened(&[3, 4]);
    let back = e.clone().reject(key(1)).unwrap_err();
    assert_eq!(back, e);
}

#[test]
fn a_done_escrow_stays_done_when_rejected() {
    let e = opened(&[3]).approve(key(3)).unwrap();
    let after = e.clone().reject(key(3)).unwrap();
    assert_eq!(after, e);
    assert_eq!(after.state, EscrowState::Done);
}

#[test]
fn a_rejected_escrow_stays_rejected_when_rejected_again() {
    let e = opened(&[3, 4]).reject(key(3)).unwrap();
    let after = e.clone().reject(key(4)).unwrap();
    assert_eq!(after, e);
}

#[test]
fn in_place_transitions_report_acceptance() {
    let mut e = opened(&[3, 4]);
    assert!(!e.record_approval(key(8)));
    assert!(e.record_approval(key(3)));
    assert!(!e.record_rejection(key(8)));
    assert_eq!(e.state, EscrowState::Pending);
    assert!(e.record_rejection(key(4)));
    assert_eq!(e.state, EscrowState::Rejected);
    assert!(!e.record_approval(key(4)));
}

#[test]
fn key_lists_are_compared_as_sets() {
    let a = vec![key(1), key(2), key(1)];
    let b = vec![key(2), key(1)];
    let c = vec![key(2)];
    assert!(keys_within(&a, &b));
    assert!(keys_within(&b, &a));
    assert!(keys_within(&c, &a));
    assert!(!keys_within(&a, &c));
    assert!(keys_within(&Vec::new(), &c));
    assert!(contains_key(&a, &key(2)));
    assert!(!contains_key(&c, &key(1)));
}

#[test]
fn only_the_last_new_approval_completes() {
    let e = opened(&[3, 4]);
    assert!(!e.completes_with(&key(3)));
    assert!(!e.completes_with(&key(9)));
    let e = e.approve(key(3)).unwrap();
    assert!(!e.completes_with(&key(3)));
    assert!(e.completes_with(&key(4)));
    assert!(!e.completes_with(&key(9)));
    let done = e.clone().approve(key(4)).unwrap();
    assert!(!done.completes_with(&key(4)));
    let rejected = e.reject(key(4)).unwrap();
    assert!(!rejected.completes_with(&key(4)));
}

#[test]
fn states_have_stable_numbers() {
    assert_eq!(EscrowState::Pending.code(), 0);
    assert_eq!(EscrowState::Rejected.code(), 1);
    assert_eq!(EscrowState::Done.code(), 2);
    assert_eq!(EscrowState::from_code(0), Some(EscrowState::Pending));
    assert_eq!(EscrowState::from_code(1), Some(EscrowState::Rejected));
    assert_eq!(EscrowState::from_code(2), Some(EscrowState::Done));
    assert_eq!(EscrowState::from_code(3), None);
}
