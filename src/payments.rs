//! The payment ledger: one entry per payment hash, settled at most once.

use vstd::prelude::*;
use crate::events::NodeEvent;

verus! {

#[derive(Clone, Copy, Debug, PartialEq, Eq, Structural)]
pub enum PaymentDirection {
    Inbound,
    Outbound,
}

#[derive(Clone, Copy, Debug, PartialEq, Eq, Structural)]
pub enum PaymentStatus {
    Pending,
    Succeeded,
    Failed,
}

/// One ledger entry. The amount is absent while no amount is known.
#[derive(Clone, Copy, Debug)]
pub struct PaymentRecord {
    pub hash: [u8; 32],
    pub amount_msat: Option<u64>,
    pub direction: PaymentDirection,
    pub status: PaymentStatus,
}

#[derive(Clone, Copy, Debug, PartialEq, Eq, Structural)]
pub enum LedgerError {
    /// An entry with this payment hash is already recorded.
    DuplicateHash,
    /// No entry has this payment hash.
    UnknownPayment,
    /// The entry already reached a terminal status.
    AlreadySettled,
}

/// Append-only ledger of payments, keyed by payment hash.
pub struct PaymentLedger {
    entries: Vec<PaymentRecord>,
}

pub open spec fn direction_code(d: PaymentDirection) -> u8 {
    match d {
        PaymentDirection::Inbound => 0,
        PaymentDirection::Outbound => 1,
    }
}

pub open spec fn status_code(s: PaymentStatus) -> u8 {
    match s {
        PaymentStatus::Pending => 0,
        PaymentStatus::Succeeded => 1,
        PaymentStatus::Failed => 2,
    }
}

/// The default listing filter: an amount is present and not zero.
pub open spec fn has_positive_amount(p: PaymentRecord) -> bool {
    p.amount_msat is Some && p.amount_msat->0 > 0
}

/// A listed entry as (amount in millisatoshi, direction code, status code).
pub open spec fn payment_row(p: PaymentRecord) -> (u64, u8, u8) {
    (p.amount_msat.unwrap_or(0), direction_code(p.direction), status_code(p.status))
}

/// What `get_payments` lists for the entries `s`.
pub open spec fn payment_rows(s: Seq<PaymentRecord>) -> Seq<(u64, u8, u8)> {
    s.filter(|p: PaymentRecord| has_positive_amount(p)).map_values(|p: PaymentRecord| payment_row(p))
}

/// The entries of `s` whose answer in `answers` is true, in order.
pub open spec fn select(s: Seq<PaymentRecord>, answers: Seq<bool>) -> Seq<PaymentRecord>
    decreases s.len(),
{
    if s.len() == 0 || answers.len() != s.len() {
        Seq::empty()
    } else {
        let sub = select(s.drop_last(), answers.drop_last());
        if answers.last() {
            sub.push(s.last())
        } else {
            sub
        }
    }
}

proof fn lemma_select_filter(s: Seq<PaymentRecord>, answers: Seq<bool>)
    requires
        answers.len() == s.len(),
        forall|i: int| 0 <= i < s.len() ==> #[trigger] answers[i] == has_positive_amount(s[i]),
    ensures
        select(s, answers) == s.filter(|p: PaymentRecord| has_positive_amount(p)),
    decreases s.len(),
{
    reveal(Seq::filter);
    if s.len() > 0 {
        let a2 = answers.drop_last();
        assert forall|i: int| 0 <= i < s.drop_last().len() implies #[trigger] a2[i]
            == has_positive_amount(s.drop_last()[i]) by {
            assert(a2[i] == answers[i]);
        }
        lemma_select_filter(s.drop_last(), a2);
        assert(answers.last() == answers[s.len() - 1]);
    }
}

/// No two entries of `s` share a payment hash.
pub open spec fn hashes_unique(s: Seq<PaymentRecord>) -> bool {
    forall|i: int, j: int| 0 <= i < j < s.len() ==> (#[trigger] s[i]).hash@ != (#[trigger] s[j]).hash@
}

/// Index of the entry with payment hash `h`, if any.
pub open spec fn index_of_hash(s: Seq<PaymentRecord>, h: Seq<u8>) -> Option<int> {
    if exists|i: int| 0 <= i < s.len() && (#[trigger] s[i]).hash@ == h {
        Some(choose|i: int| 0 <= i < s.len() && (#[trigger] s[i]).hash@ == h)
    } else {
        None
    }
}

/// The entries after settling the pending entry at `i` with `status`; a
/// given positive amount replaces the recorded one, so an entry with an
/// amount never loses it.
pub open spec fn settled(
    s: Seq<PaymentRecord>,
    i: int,
    status: PaymentStatus,
    amount_msat: Option<u64>,
) -> Seq<PaymentRecord> {
    s.update(
        i,
        PaymentRecord {
            status,
            amount_msat: if amount_msat is Some && amount_msat->0 > 0 {
                amount_msat
            } else {
                s[i].amount_msat
            },
            ..s[i]
        },
    )
}

/// The default listing filter, as an executable predicate.
pub fn is_positive_amount(p: &PaymentRecord) -> (b: bool)
    ensures
        b == has_positive_amount(*p),
{
    match p.amount_msat {
        Some(a) => a > 0,
        None => false,
    }
}

/// Ledger entries and result after settling the entry with hash `h`.
pub open spec fn settle_spec(
    s: Seq<PaymentRecord>,
    h: Seq<u8>,
    status: PaymentStatus,
    amount_msat: Option<u64>,
) -> (Seq<PaymentRecord>, Result<(), LedgerError>) {
    match index_of_hash(s, h) {
        None => (s, Err(LedgerError::UnknownPayment)),
        Some(i) => if s[i].status != PaymentStatus::Pending {
            (s, Err(LedgerError::AlreadySettled))
        } else {
            (settled(s, i, status, amount_msat), Ok(()))
        },
    }
}

fn direction_to_code(d: PaymentDirection) -> (r: u8)
    ensures
        r == direction_code(d),
{
    match d {
        PaymentDirection::Inbound => 0,
        PaymentDirection::Outbound => 1,
    }
}

fn status_to_code(s: PaymentStatus) -> (r: u8)
    ensures
        r == status_code(s),
{
    match s {
        PaymentStatus::Pending => 0,
        PaymentStatus::Succeeded => 1,
        PaymentStatus::Failed => 2,
    }
}

/// Compares two byte arrays (hashes, channel or node identifiers).
pub fn bytes_equal<const N: usize>(a: &[u8; N], b: &[u8; N]) -> (r: bool)
    ensures
        r == (a@ == b@),
{
    let mut i: usize = 0;
    while i < N
        invariant
            i <= N,
            a@.len() == N,
            b@.len() == N,
            forall|j: int| 0 <= j < i ==> a@[j] == b@[j],
        decreases N - i,
    {
        if a[i] != b[i] {
            return false;
        }
        i = i + 1;
    }
    assert(a@ =~= b@);
    true
}

impl View for PaymentLedger {
    type V = Seq<PaymentRecord>;

    closed spec fn view(&self) -> Seq<PaymentRecord> {
        self.entries@
    }
}

impl PaymentLedger {
    /// No two entries share a payment hash.
    pub open spec fn wf(&self) -> bool {
        hashes_unique(self@)
    }

    pub fn new() -> (r: Self)
        ensures
            r.wf(),
            r@ == Seq::<PaymentRecord>::empty(),
    {
        PaymentLedger { entries: Vec::new() }
    }

    /// Position of the entry with payment hash `hash`.
    pub fn find(&self, hash: &[u8; 32]) -> (r: Option<usize>)
        requires
            self.wf(),
        ensures
            r is None <==> index_of_hash(self@, hash@) is None,
            r is Some ==> index_of_hash(self@, hash@) == Some(r->0 as int),
    {
        let mut i: usize = 0;
        while i < self.entries.len()
            invariant
                self.wf(),
                i <= self@.len(),
                forall|j: int| 0 <= j < i ==> (#[trigger] self@[j]).hash@ != hash@,
            decreases self@.len() - i,
        {
            if bytes_equal(&self.entries[i].hash, hash) {
                let ghost k = index_of_hash(self@, hash@);
                assert(self@[i as int].hash@ == hash@);
                assert(k is Some);
                proof {
                    let c = k->0;
                    if c != i as int {
                        assert(self@[c].hash@ == hash@);
                        if c < i {
                            assert(self@[c].hash@ != self@[i as int].hash@);
                        } else {
                            assert(self@[i as int].hash@ != self@[c].hash@);
                        }
                    }
                }
                return Some(i);
            }
            i = i + 1;
        }
        None
    }

    /// Records a newly initiated send or receive.
    pub fn record(&mut self, p: PaymentRecord) -> (r: Result<(), LedgerError>)
        requires
            old(self).wf(),
        ensures
            final(self).wf(),
            index_of_hash(old(self)@, p.hash@) is Some ==> r == Err::<(), LedgerError>(
                LedgerError::DuplicateHash) && final(self)@ == old(self)@,
            index_of_hash(old(self)@, p.hash@) is None ==> r == Ok::<(), LedgerError>(())
                && final(self)@ == old(self)@.push(p),
    {
        match self.find(&p.hash) {
            Some(_) => Err(LedgerError::DuplicateHash),
            None => {
                self.entries.push(p);
                assert forall|i: int, j: int|
                    0 <= i < j < self@.len() implies (#[trigger] self@[i]).hash@ != (
                    #[trigger] self@[j]).hash@ by {
                    if j == self@.len() - 1 {
                        assert(old(self)@[i].hash@ != p.hash@);
                    } else {
                        assert(old(self)@[i].hash@ != old(self)@[j].hash@);
                    }
                }
                Ok(())
            },
        }
    }

    /// Moves the pending entry with payment hash `hash` to its terminal
    /// `status`, once; a given positive amount replaces the recorded one.
    pub fn settle(&mut self, hash: &[u8; 32], status: PaymentStatus, amount_msat: Option<u64>) -> (r:
        Result<(), LedgerError>)
        requires
            old(self).wf(),
            status != PaymentStatus::Pending,
        ensures
            final(self).wf(),
            settle_spec(old(self)@, hash@, status, amount_msat) == (final(self)@, r),
    {
        match self.find(hash) {
            None => Err(LedgerError::UnknownPayment),
            Some(i) => {
                let cur = self.entries[i];
                if cur.status != PaymentStatus::Pending {
                    return Err(LedgerError::AlreadySettled);
                }
                let amount = match amount_msat {
                    Some(a) => if a > 0 {
                        Some(a)
                    } else {
                        cur.amount_msat
                    },
                    None => cur.amount_msat,
                };
                self.entries[i] = PaymentRecord { status, amount_msat: amount, ..cur };
                assert(self@ =~= settled(old(self)@, i as int, status, amount_msat));
                assert forall|a: int, b: int|
                    0 <= a < b < self@.len() implies (#[trigger] self@[a]).hash@ != (
                    #[trigger] self@[b]).hash@ by {
                    assert(old(self)@[a].hash@ != old(self)@[b].hash@);
                }
                Ok(())
            },
        }
    }

    /// Applies a terminal payment event: success, failure, or an inbound
    /// payment received with its amount. Other events change nothing.
    pub fn apply_event(&mut self, e: &NodeEvent) -> (r: Result<(), LedgerError>)
        requires
            old(self).wf(),
        ensures
            final(self).wf(),
            match *e {
                NodeEvent::PaymentSuccessful { payment_hash } => settle_spec(
                    old(self)@,
                    payment_hash@,
                    PaymentStatus::Succeeded,
                    None,
                ) == (final(self)@, r),
                NodeEvent::PaymentFailed { payment_hash } => settle_spec(
                    old(self)@,
                    payment_hash@,
                    PaymentStatus::Failed,
                    None,
                ) == (final(self)@, r),
                NodeEvent::PaymentReceived { payment_hash, amount_msat } => settle_spec(
                    old(self)@,
                    payment_hash@,
                    PaymentStatus::Succeeded,
                    Some(amount_msat),
                ) == (final(self)@, r),
                _ => final(self)@ == old(self)@ && r == Ok::<(), LedgerError>(()),
            },
    {
        match *e {
            NodeEvent::PaymentSuccessful { payment_hash } => self.settle(
                &payment_hash,
                PaymentStatus::Succeeded,
                None,
            ),
            NodeEvent::PaymentFailed { payment_hash } => self.settle(
                &payment_hash,
                PaymentStatus::Failed,
                None,
            ),
            NodeEvent::PaymentReceived { payment_hash, amount_msat } => self.settle(
                &payment_hash,
                PaymentStatus::Succeeded,
                Some(amount_msat),
            ),
            _ => Ok(()),
        }
    }

    /// The ledger's entries that `filter` accepts, in ledger order; `filter`
    /// is asked once about each entry.
    pub fn list_payments<F: Fn(&PaymentRecord) -> bool>(&self, filter: F) -> (r: Vec<
        PaymentRecord,
    >)
        requires
            forall|p: &PaymentRecord| #[trigger] filter.requires((p,)),
        ensures
            exists|answers: Seq<bool>|
                {
                    &&& answers.len() == self@.len()
                    &&& forall|i: int|
                        0 <= i < self@.len() ==> filter.ensures((&self@[i],), #[trigger] answers[i])
                    &&& r@ == select(self@, answers)
                },
    {
        let ghost mut answers: Seq<bool> = Seq::empty();
        let mut out: Vec<PaymentRecord> = Vec::new();
        let mut i: usize = 0;
        while i < self.entries.len()
            invariant
                i <= self@.len(),
                forall|p: &PaymentRecord| #[trigger] filter.requires((p,)),
                answers.len() == i,
                forall|k: int| 0 <= k < i ==> filter.ensures((&self@[k],), #[trigger] answers[k]),
                out@ == select(self@.take(i as int), answers),
            decreases self@.len() - i,
        {
            let p = self.entries[i];
            let keep = filter(&p);
            proof {
                let old_answers = answers;
                answers = answers.push(keep);
                assert(self@.take(i as int + 1).drop_last() =~= self@.take(i as int));
                assert(answers.drop_last() =~= old_answers);
            }
            if keep {
                out.push(p);
            }
            i = i + 1;
        }
        assert(self@.take(self@.len() as int) =~= self@);
        out
    }

    /// The entries with a present, non-zero amount, as rows of
    /// (amount in millisatoshi, direction code, status code).
    pub fn get_payments(&self) -> (r: Vec<(u64, u8, u8)>)
        ensures
            r@ == payment_rows(self@),
    {
        let listed = self.list_payments(is_positive_amount);
        proof {
            let answers = choose|answers: Seq<bool>|
                {
                    &&& answers.len() == self@.len()
                    &&& forall|i: int|
                        0 <= i < self@.len() ==> is_positive_amount.ensures(
                            (&self@[i],),
                            #[trigger] answers[i],
                        )
                    &&& listed@ == select(self@, answers)
                };
            lemma_select_filter(self@, answers);
        }
        let mut rows: Vec<(u64, u8, u8)> = Vec::new();
        let mut i: usize = 0;
        while i < listed.len()
            invariant
                i <= listed@.len(),
                rows@ =~= listed@.take(i as int).map_values(|p: PaymentRecord| payment_row(p)),
            decreases listed@.len() - i,
        {
            let p = listed[i];
            let amount = match p.amount_msat {
                Some(a) => a,
                None => 0,
            };
            rows.push((amount, direction_to_code(p.direction), status_to_code(p.status)));
            i = i + 1;
        }
        assert(listed@.take(listed@.len() as int) =~= listed@);
        rows
    }
}

/// A listing whose filter accepted only entries with an amount never yields
/// an entry without one.
pub proof fn lemma_listed_entries_have_amounts(s: Seq<PaymentRecord>, answers: Seq<bool>)
    requires
        answers.len() == s.len(),
        forall|i: int| 0 <= i < s.len() && #[trigger] answers[i] ==> s[i].amount_msat is Some,
    ensures
        forall|k: int|
            0 <= k < select(s, answers).len() ==> (#[trigger] select(s, answers)[k]).amount_msat is Some,
    decreases s.len(),
{
    if s.len() > 0 {
        let a2 = answers.drop_last();
        assert forall|i: int| 0 <= i < s.drop_last().len() && #[trigger] a2[i] implies s.drop_last()[i].amount_msat is Some by {
            assert(a2[i] == answers[i]);
        }
        lemma_listed_entries_have_amounts(s.drop_last(), a2);
        assert(answers.last() == answers[s.len() - 1]);
    }
}

proof fn lemma_filter_len_monotone(
    s: Seq<PaymentRecord>,
    t: Seq<PaymentRecord>,
    pred: spec_fn(PaymentRecord) -> bool,
)
    requires
        s.len() <= t.len(),
        forall|i: int| 0 <= i < s.len() && pred(s[i]) ==> pred(#[trigger] t[i]),
    ensures
        s.filter(pred).len() <= t.filter(pred).len(),
    decreases t.len(),
{
    reveal(Seq::filter);
    if t.len() > s.len() {
        lemma_filter_len_monotone(s, t.drop_last(), pred);
    } else if s.len() > 0 {
        assert forall|i: int| 0 <= i < s.drop_last().len() && pred(s.drop_last()[i]) implies pred(
            #[trigger] t.drop_last()[i],
        ) by {
            assert(pred(t[i]));
        }
        lemma_filter_len_monotone(s.drop_last(), t.drop_last(), pred);
    }
}

/// The listing never shrinks when every listed entry of `s` stays listed at
/// its place in `t`.
pub proof fn lemma_listing_never_shrinks(s: Seq<PaymentRecord>, t: Seq<PaymentRecord>)
    requires
        s.len() <= t.len(),
        forall|i: int| 0 <= i < s.len() && has_positive_amount(s[i]) ==> has_positive_amount(#[trigger] t[i]),
    ensures
        payment_rows(s).len() <= payment_rows(t).len(),
{
    let pred = |p: PaymentRecord| has_positive_amount(p);
    assert forall|i: int| 0 <= i < s.len() && pred(s[i]) implies pred(#[trigger] t[i]) by {}
    lemma_filter_len_monotone(s, t, pred);
}

/// Recording a payment keeps every entry in place, so the listing does not
/// shrink.
pub proof fn lemma_record_keeps_listing(s: Seq<PaymentRecord>, p: PaymentRecord)
    ensures
        forall|i: int| 0 <= i < s.len() ==> #[trigger] s.push(p)[i] == s[i],
        payment_rows(s).len() <= payment_rows(s.push(p)).len(),
{
    lemma_listing_never_shrinks(s, s.push(p));
}

/// Settling a payment, also through a payment event, keeps every entry's
/// hash and keeps a listed entry listed, so the listing does not shrink.
pub proof fn lemma_settle_keeps_listing(
    s: Seq<PaymentRecord>,
    h: Seq<u8>,
    status: PaymentStatus,
    amount_msat: Option<u64>,
)
    ensures
        ({
            let t = settle_spec(s, h, status, amount_msat).0;
            &&& t.len() == s.len()
            &&& forall|i: int| 0 <= i < s.len() ==> (#[trigger] t[i]).hash == s[i].hash
            &&& forall|i: int|
                0 <= i < s.len() && has_positive_amount(s[i]) ==> has_positive_amount(#[trigger] t[i])
            &&& payment_rows(s).len() <= payment_rows(t).len()
        }),
{
    let t = settle_spec(s, h, status, amount_msat).0;
    lemma_listing_never_shrinks(s, t);
}

/// A settling event delivered again finds its entry settled and leaves the
/// ledger as it is: one entry per payment, settled once.
pub proof fn lemma_settle_redelivered_unchanged(
    s: Seq<PaymentRecord>,
    h: Seq<u8>,
    status: PaymentStatus,
    amount_msat: Option<u64>,
    again_status: PaymentStatus,
    again_amount_msat: Option<u64>,
)
    requires
        hashes_unique(s),
        status != PaymentStatus::Pending,
        settle_spec(s, h, status, amount_msat).1 is Ok,
    ensures
        ({
            let t = settle_spec(s, h, status, amount_msat).0;
            settle_spec(t, h, again_status, again_amount_msat) == (t, Err::<(), LedgerError>(
                LedgerError::AlreadySettled,
            ))
        }),
{
    let i = index_of_hash(s, h)->0;
    let t = settle_spec(s, h, status, amount_msat).0;
    assert(t[i].hash@ == h);
    let j = index_of_hash(t, h)->0;
    assert(t[j].hash == s[j].hash);
    if j != i {
        if j < i {
            assert(s[j].hash@ != s[i].hash@);
        } else {
            assert(s[i].hash@ != s[j].hash@);
        }
    }
}

} // verus!
