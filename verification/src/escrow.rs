//! Escrow: a transfer that is held until every approver has accepted it, or
//! until one of them has rejected it.

use vstd::prelude::*;
use crate::error::Error;
use crate::keys::PublicKey;

verus! {

/// How many distinct approvers an escrow may name.
pub const MAX_APPROVERS: usize = 5;

/// State of an escrow. `Rejected` and `Done` are final.
#[derive(Clone, Copy, Debug, PartialEq, Eq, Structural)]
pub enum EscrowState {
    /// Waiting for approvals.
    Pending,
    /// Vetoed by one of the approvers; the amount went back to the initiator.
    Rejected,
    /// Approved by all approvers; the amount went to the beneficiary.
    Done,
}

impl EscrowState {
    /// The number that stands for each state outside the ledger.
    pub open spec fn code_of(self) -> u8 {
        match self {
            EscrowState::Pending => 0,
            EscrowState::Rejected => 1,
            EscrowState::Done => 2,
        }
    }

    /// The number that stands for the state outside the ledger.
    pub fn code(&self) -> (c: u8)
        ensures
            c == self.code_of(),
    {
        match self {
            EscrowState::Pending => 0,
            EscrowState::Rejected => 1,
            EscrowState::Done => 2,
        }
    }

    /// The state that a number stands for; `None` for a number that stands
    /// for no state.
    pub fn from_code(code: u8) -> (r: Option<EscrowState>)
        ensures
            r.is_some() <==> code <= 2,
            r.is_some() ==> r.unwrap().code_of() == code,
    {
        match code {
            0 => Some(EscrowState::Pending),
            1 => Some(EscrowState::Rejected),
            2 => Some(EscrowState::Done),
            _ => None,
        }
    }
}

/// The keys of `s`, each once, in the order of their first occurrence.
pub open spec fn distinct(s: Seq<PublicKey>) -> Seq<PublicKey>
    decreases s.len(),
{
    if s.len() == 0 {
        Seq::empty()
    } else {
        let d = distinct(s.drop_last());
        if d.contains(s.last()) {
            d
        } else {
            d.push(s.last())
        }
    }
}

/// `distinct` keeps exactly the keys of its argument, and none twice.
pub proof fn lemma_distinct(s: Seq<PublicKey>)
    ensures
        distinct(s).no_duplicates(),
        distinct(s).len() <= s.len(),
        s.len() > 0 ==> distinct(s).len() > 0,
        forall|k: PublicKey| distinct(s).contains(k) <==> s.contains(k),
    decreases s.len(),
{
    if s.len() > 0 {
        let t = s.drop_last();
        let d = distinct(t);
        lemma_distinct(t);
        assert forall|k: PublicKey| distinct(s).contains(k) <==> s.contains(k) by {
            if s.contains(k) {
                let i = choose|i: int| 0 <= i < s.len() && s[i] == k;
                if i < s.len() - 1 {
                    assert(t[i] == k);
                    assert(t.contains(k));
                    assert(d.contains(k));
                    let j = choose|j: int| 0 <= j < d.len() && d[j] == k;
                    assert(distinct(s)[j] == k);
                } else {
                    if !d.contains(k) {
                        assert(distinct(s)[d.len() as int] == k);
                    }
                }
            }
            if distinct(s).contains(k) {
                let j = choose|j: int| 0 <= j < distinct(s).len() && distinct(s)[j] == k;
                if j < d.len() {
                    assert(d[j] == k);
                    assert(d.contains(k));
                    assert(t.contains(k));
                    let i = choose|i: int| 0 <= i < t.len() && t[i] == k;
                    assert(t[i] == s[i]);
                } else {
                    assert(s[s.len() - 1] == k);
                }
            }
        }
        if d.contains(s.last()) {
            let j = choose|j: int| 0 <= j < d.len() && d[j] == s.last();
        }
    }
}

/// Whether every key of `a` occurs in `b`.
pub open spec fn all_within(a: Seq<PublicKey>, b: Seq<PublicKey>) -> bool {
    forall|i: int| 0 <= i < a.len() ==> b.contains(#[trigger] a[i])
}

/// Two lists hold the same set of keys exactly if each lies within the other.
pub proof fn lemma_same_keys(a: Seq<PublicKey>, b: Seq<PublicKey>)
    ensures
        (a.to_set() == b.to_set()) <==> (all_within(a, b) && all_within(b, a)),
{
    if all_within(a, b) && all_within(b, a) {
        assert forall|k: PublicKey| a.to_set().contains(k) <==> b.to_set().contains(k) by {
            if a.contains(k) {
                let i = choose|i: int| 0 <= i < a.len() && a[i] == k;
                assert(b.contains(a[i]));
            }
            if b.contains(k) {
                let i = choose|i: int| 0 <= i < b.len() && b[i] == k;
                assert(a.contains(b[i]));
            }
        }
        assert(a.to_set() =~= b.to_set());
    }
    if a.to_set() == b.to_set() {
        assert forall|i: int| 0 <= i < a.len() implies b.contains(#[trigger] a[i]) by {
            assert(a.contains(a[i]));
            assert(a.to_set().contains(a[i]));
        }
        assert forall|i: int| 0 <= i < b.len() implies a.contains(#[trigger] b[i]) by {
            assert(b.contains(b[i]));
            assert(b.to_set().contains(b[i]));
        }
    }
}

/// Whether `key` occurs in `list`.
pub fn contains_key(list: &Vec<PublicKey>, key: &PublicKey) -> (found: bool)
    ensures
        found == list@.contains(*key),
{
    let mut i: usize = 0;
    while i < list.len()
        invariant
            i <= list.len(),
            forall|j: int| 0 <= j < i ==> list@[j] != *key,
        decreases list.len() - i,
    {
        if list[i] == *key {
            return true;
        }
        i += 1;
    }
    false
}

/// Whether every key of `a` occurs in `b`.
pub fn keys_within(a: &Vec<PublicKey>, b: &Vec<PublicKey>) -> (r: bool)
    ensures
        r == all_within(a@, b@),
{
    let mut i: usize = 0;
    while i < a.len()
        invariant
            i <= a.len(),
            forall|j: int| 0 <= j < i ==> b@.contains(#[trigger] a@[j]),
        decreases a.len() - i,
    {
        if !contains_key(b, &a[i]) {
            return false;
        }
        i += 1;
    }
    true
}

/// The keys of `list`, each once, in the order of their first occurrence.
pub fn distinct_keys(list: &Vec<PublicKey>) -> (out: Vec<PublicKey>)
    ensures
        out@ == distinct(list@),
{
    let mut out: Vec<PublicKey> = Vec::new();
    let mut i: usize = 0;
    while i < list.len()
        invariant
            i <= list.len(),
            out@ == distinct(list@.take(i as int)),
        decreases list.len() - i,
    {
        proof {
            assert(list@.take(i + 1).drop_last() =~= list@.take(i as int));
        }
        if !contains_key(&out, &list[i]) {
            out.push(list[i]);
        }
        i += 1;
    }
    proof {
        assert(list@.take(i as int) =~= list@);
    }
    out
}

/// A pending escrow as a mathematical value.
pub struct EscrowView {
    pub initiator: PublicKey,
    pub beneficiary: PublicKey,
    pub approvers: Seq<PublicKey>,
    pub amount: u64,
    pub state: EscrowState,
    pub approved_by: Seq<PublicKey>,
}

impl EscrowView {
    /// The escrow as it is created: pending, with no approval yet.
    pub open spec fn opened(
        initiator: PublicKey,
        beneficiary: PublicKey,
        approvers: Seq<PublicKey>,
        amount: u64,
    ) -> EscrowView {
        EscrowView {
            initiator,
            beneficiary,
            approvers: distinct(approvers),
            amount,
            state: EscrowState::Pending,
            approved_by: Seq::empty(),
        }
    }

    /// Whether the keys that approved are exactly the approvers, as sets.
    pub open spec fn is_complete(self) -> bool {
        self.approved_by.to_set() == self.approvers.to_set()
    }

    /// Whether the escrow is settled for good.
    pub open spec fn is_terminal(self) -> bool {
        self.state != EscrowState::Pending
    }

    /// Whether `key` may approve or reject.
    pub open spec fn eligible(self, key: PublicKey) -> bool {
        self.approvers.contains(key)
    }

    /// The invariant of an escrow: between one and `MAX_APPROVERS` approvers,
    /// none twice; approvals only from approvers, none twice; `Done` only
    /// with every approval, `Pending` only without.
    pub open spec fn wf(self) -> bool {
        &&& 0 < self.approvers.len() <= MAX_APPROVERS
        &&& self.approvers.no_duplicates()
        &&& self.approved_by.no_duplicates()
        &&& all_within(self.approved_by, self.approvers)
        &&& (self.state == EscrowState::Done ==> self.is_complete())
        &&& (self.state == EscrowState::Pending ==> !self.is_complete())
    }

    /// Whether an approval by `key` is accepted: the escrow is not rejected
    /// and `key` is an approver.
    pub open spec fn accepts_approval(self, key: PublicKey) -> bool {
        self.state != EscrowState::Rejected && self.eligible(key)
    }

    /// Whether an accepted approval by `key` is a new one: the escrow is
    /// pending and `key` has not approved before.
    pub open spec fn approval_counts(self, key: PublicKey) -> bool {
        self.state == EscrowState::Pending && !self.approved_by.contains(key)
    }

    /// Whether an approval by `key` is the one that completes the escrow.
    pub open spec fn completes_with(self, key: PublicKey) -> bool {
        self.approval_counts(key) && self.approved_by.push(key).to_set()
            == self.approvers.to_set()
    }

    /// The escrow after an accepted approval by `key`. A repeated approval,
    /// or one of a settled escrow, changes nothing.
    pub open spec fn after_approval(self, key: PublicKey) -> EscrowView {
        if self.approval_counts(key) {
            let approved_by = self.approved_by.push(key);
            let grown = EscrowView { approved_by, ..self };
            EscrowView {
                state: if grown.is_complete() {
                    EscrowState::Done
                } else {
                    EscrowState::Pending
                },
                ..grown
            }
        } else {
            self
        }
    }

    /// The escrow after a rejection by an approver. A settled escrow stays as
    /// it is.
    pub open spec fn after_rejection(self) -> EscrowView {
        if self.state == EscrowState::Pending {
            EscrowView { state: EscrowState::Rejected, ..self }
        } else {
            self
        }
    }

    /// The amount that the escrow holds back: its amount while pending, and
    /// nothing once it is settled.
    pub open spec fn held(self) -> nat {
        if self.state == EscrowState::Pending {
            self.amount as nat
        } else {
            0
        }
    }
}

/// Approval and rejection keep the invariant of an escrow.
pub proof fn lemma_transitions_keep_wf(e: EscrowView, key: PublicKey)
    requires
        e.wf(),
        e.eligible(key),
    ensures
        e.after_approval(key).wf(),
        e.after_rejection().wf(),
{
    let a = e.after_approval(key);
    if e.approval_counts(key) {
        assert(a.approved_by.no_duplicates());
        assert forall|i: int| 0 <= i < a.approved_by.len() implies a.approvers.contains(
            #[trigger] a.approved_by[i],
        ) by {
            if i < e.approved_by.len() {
                assert(a.approved_by[i] == e.approved_by[i]);
            }
        }
    }
    let r = e.after_rejection();
    assert(r.approved_by == e.approved_by);
}

/// A newly opened escrow with an admissible list of approvers is well formed.
pub proof fn lemma_opened_wf(
    initiator: PublicKey,
    beneficiary: PublicKey,
    approvers: Seq<PublicKey>,
    amount: u64,
)
    requires
        0 < distinct(approvers).len() <= MAX_APPROVERS,
    ensures
        EscrowView::opened(initiator, beneficiary, approvers, amount).wf(),
{
    let e = EscrowView::opened(initiator, beneficiary, approvers, amount);
    lemma_distinct(approvers);
    lemma_same_keys(e.approved_by, e.approvers);
    assert(e.approvers.contains(e.approvers[0]));
}

/// An escrowed transfer and its progress.
#[derive(Clone, Debug, PartialEq, Eq)]
pub struct PendingEscrow {
    /// Who opened the escrow and gets the amount back on rejection.
    pub initiator: PublicKey,
    /// Who gets the amount once every approver has accepted.
    pub beneficiary: PublicKey,
    /// Who may approve or reject; no key twice.
    pub approvers: Vec<PublicKey>,
    /// The amount held, fixed at creation.
    pub amount: u64,
    /// Where the escrow stands.
    pub state: EscrowState,
    /// Who has approved so far; no key twice.
    pub approved_by: Vec<PublicKey>,
}

impl View for PendingEscrow {
    type V = EscrowView;

    open spec fn view(&self) -> EscrowView {
        EscrowView {
            initiator: self.initiator,
            beneficiary: self.beneficiary,
            approvers: self.approvers@,
            amount: self.amount,
            state: self.state,
            approved_by: self.approved_by@,
        }
    }
}

impl PendingEscrow {
    /// Opens an escrow of `amount` from `initiator` to `beneficiary`. The
    /// approvers are the distinct keys of `approvers`: with none of them the
    /// escrow is refused as `EmptyApprovers`, with more than `MAX_APPROVERS`
    /// as `TooManyApprovers`.
    pub fn open(
        initiator: PublicKey,
        beneficiary: PublicKey,
        approvers: &Vec<PublicKey>,
        amount: u64,
    ) -> (r: Result<PendingEscrow, Error>)
        ensures
            r.is_ok() <==> approvers@.len() > 0 && distinct(approvers@).len() <= MAX_APPROVERS,
            approvers@.len() == 0 <==> r == Err::<PendingEscrow, Error>(Error::EmptyApprovers),
            distinct(approvers@).len() > MAX_APPROVERS <==> r == Err::<PendingEscrow, Error>(
                Error::TooManyApprovers,
            ),
            r.is_ok() ==> r.unwrap()@ == EscrowView::opened(
                initiator,
                beneficiary,
                approvers@,
                amount,
            ) && r.unwrap()@.wf(),
    {
        let set = distinct_keys(approvers);
        proof {
            lemma_distinct(approvers@);
        }
        if set.len() == 0 {
            return Err(Error::EmptyApprovers);
        }
        if set.len() > MAX_APPROVERS {
            return Err(Error::TooManyApprovers);
        }
        proof {
            lemma_opened_wf(initiator, beneficiary, approvers@, amount);
        }
        Ok(
            PendingEscrow {
                initiator,
                beneficiary,
                approvers: set,
                amount,
                state: EscrowState::Pending,
                approved_by: Vec::new(),
            },
        )
    }

    /// Whether the escrow is approved by all.
    pub fn is_done(&self) -> (r: bool)
        ensures
            r == (self@.state == EscrowState::Done),
    {
        self.state == EscrowState::Done
    }

    /// Whether the escrow is rejected.
    pub fn is_rejected(&self) -> (r: bool)
        ensures
            r == (self@.state == EscrowState::Rejected),
    {
        self.state == EscrowState::Rejected
    }

    /// Whether the escrow still waits for approvals.
    pub fn is_pending(&self) -> (r: bool)
        ensures
            r == !self@.is_terminal(),
    {
        self.state == EscrowState::Pending
    }

    /// Whether the keys that approved are exactly the approvers, as sets.
    pub fn is_complete(&self) -> (r: bool)
        ensures
            r == self@.is_complete(),
    {
        proof {
            lemma_same_keys(self.approved_by@, self.approvers@);
        }
        keys_within(&self.approved_by, &self.approvers) && keys_within(
            &self.approvers,
            &self.approved_by,
        )
    }

    /// Whether an approval by `approver` would be the one that completes the
    /// escrow: it is pending, `approver` has not approved before, and with
    /// `approver` the keys that approved are exactly the approvers.
    pub fn completes_with(&self, approver: &PublicKey) -> (r: bool)
        ensures
            r == self@.completes_with(*approver),
    {
        if !self.is_pending() || contains_key(&self.approved_by, approver) {
            return false;
        }
        let mut grown: Vec<PublicKey> = Vec::new();
        let mut i: usize = 0;
        while i < self.approved_by.len()
            invariant
                i <= self.approved_by.len(),
                grown@ == self.approved_by@.take(i as int),
            decreases self.approved_by.len() - i,
        {
            grown.push(self.approved_by[i]);
            proof {
                assert(grown@ =~= self.approved_by@.take(i + 1));
            }
            i += 1;
        }
        grown.push(*approver);
        proof {
            assert(self.approved_by@.take(i as int) =~= self.approved_by@);
            lemma_same_keys(grown@, self.approvers@);
        }
        keys_within(&grown, &self.approvers) && keys_within(&self.approvers, &grown)
    }

    /// Records an approval by `approver` in place. Refused, with nothing
    /// changed, if the escrow is rejected or `approver` is not an approver.
    /// Otherwise the approval is added unless it is a repeated one or the
    /// escrow is done, and the escrow becomes `Done` with the last approval.
    pub fn record_approval(&mut self, approver: PublicKey) -> (accepted: bool)
        ensures
            accepted == old(self)@.accepts_approval(approver),
            accepted ==> final(self)@ == old(self)@.after_approval(approver),
            !accepted ==> *final(self) == *old(self),
            old(self)@.wf() ==> final(self)@.wf(),
    {
        if self.is_rejected() || !contains_key(&self.approvers, &approver) {
            return false;
        }
        proof {
            if self@.wf() {
                lemma_transitions_keep_wf(self@, approver);
            }
        }
        if self.is_done() || contains_key(&self.approved_by, &approver) {
            return true;
        }
        self.approved_by.push(approver);
        let state = if self.is_complete() {
            EscrowState::Done
        } else {
            EscrowState::Pending
        };
        self.state = state;
        true
    }

    /// Records a rejection by `rejecter` in place. Refused, with nothing
    /// changed, if `rejecter` is not an approver. A pending escrow becomes
    /// `Rejected`; a settled one stays as it is.
    pub fn record_rejection(&mut self, rejecter: PublicKey) -> (accepted: bool)
        ensures
            accepted == old(self)@.eligible(rejecter),
            accepted ==> final(self)@ == old(self)@.after_rejection(),
            !accepted ==> *final(self) == *old(self),
            old(self)@.wf() ==> final(self)@.wf(),
    {
        if !contains_key(&self.approvers, &rejecter) {
            return false;
        }
        proof {
            if self@.wf() {
                lemma_transitions_keep_wf(self@, rejecter);
            }
        }
        if self.is_pending() {
            self.state = EscrowState::Rejected;
        }
        true
    }

    /// Approves the escrow in the name of `approver`: `Ok` with the escrow
    /// after the approval, or `Err` with the escrow as it was if it is
    /// rejected or `approver` is not an approver.
    pub fn approve(self, approver: PublicKey) -> (r: Result<PendingEscrow, PendingEscrow>)
        ensures
            r.is_ok() <==> self@.accepts_approval(approver),
            r.is_ok() ==> r.unwrap()@ == self@.after_approval(approver),
            r.is_err() ==> r.unwrap_err() == self,
            self@.wf() && r.is_ok() ==> r.unwrap()@.wf(),
    {
        let mut escrow = self;
        if escrow.record_approval(approver) {
            Ok(escrow)
        } else {
            Err(escrow)
        }
    }

    /// Rejects the escrow in the name of `rejecter`: `Ok` with the escrow
    /// after the rejection, or `Err` with the escrow as it was if `rejecter`
    /// is not an approver.
    pub fn reject(self, rejecter: PublicKey) -> (r: Result<PendingEscrow, PendingEscrow>)
        ensures
            r.is_ok() <==> self@.eligible(rejecter),
            r.is_ok() ==> r.unwrap()@ == self@.after_rejection(),
            r.is_err() ==> r.unwrap_err() == self,
            self@.wf() && r.is_ok() ==> r.unwrap()@.wf(),
    {
        let mut escrow = self;
        if escrow.record_rejection(rejecter) {
            Ok(escrow)
        } else {
            Err(escrow)
        }
    }
}

} // verus!
