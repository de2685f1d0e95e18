use vstd::prelude::*;

use crate::payment::{record_of, Payment, PaymentRecord};

verus! {

/// Why a ledger operation was refused.
#[derive(Clone, Copy, Debug, PartialEq, Eq, Structural)]
pub enum LedgerError {
    /// A record with this correlation id already exists.
    Duplicate,
    /// No record has this correlation id.
    UnknownPayment,
}

/// An in-memory payment log keyed by correlation id, with the store's
/// uniqueness constraint: at most one record per id. Records are never
/// removed.
pub struct PaymentLedger {
    records: Vec<PaymentRecord>,
}

pub open spec fn ids_distinct(s: Seq<PaymentRecord>) -> bool {
    forall|i: int, j: int| 0 <= i < j < s.len() ==> s[i].id != s[j].id
}

pub open spec fn has_id(s: Seq<PaymentRecord>, id: u128) -> bool {
    exists|i: int| 0 <= i < s.len() && s[i].id == id
}

/// How many records carry `id`.
pub open spec fn count_id(s: Seq<PaymentRecord>, id: u128) -> nat
    decreases s.len(),
{
    if s.len() == 0 {
        0
    } else {
        count_id(s.drop_last(), id) + if s.last().id == id {
            1nat
        } else {
            0nat
        }
    }
}

/// The log after an insert of `p`: unchanged when its id is already there.
pub open spec fn ledger_insert(s: Seq<PaymentRecord>, p: Payment) -> Seq<PaymentRecord> {
    if has_id(s, p.correlation_id) {
        s
    } else {
        s.push(record_of(p))
    }
}

impl PaymentLedger {
    pub closed spec fn view(&self) -> Seq<PaymentRecord> {
        self.records@
    }

    pub open spec fn wf(&self) -> bool {
        ids_distinct(self@)
    }

    pub fn new() -> (r: PaymentLedger)
        ensures
            r.wf(),
            r@ == Seq::<PaymentRecord>::empty(),
    {
        PaymentLedger { records: Vec::new() }
    }

    /// All records, in insertion order.
    pub fn records(&self) -> (r: &Vec<PaymentRecord>)
        ensures
            r@ == self@,
    {
        &self.records
    }

    /// The position of the record with `id`, if there is one.
    pub fn find(&self, id: u128) -> (r: Option<usize>)
        requires
            self.wf(),
        ensures
            r.is_none() <==> !has_id(self@, id),
            r matches Some(i) ==> i < self@.len() && self@[i as int].id == id,
    {
        let mut i: usize = 0;
        while i < self.records.len()
            invariant
                i <= self.records@.len(),
                forall|k: int| 0 <= k < i ==> self.records@[k].id != id,
            decreases self.records@.len() - i,
        {
            if self.records[i].id == id {
                return Some(i);
            }
            i = i + 1;
        }
        None
    }

    /// Inserts the record of `p`. A second insert with the same correlation
    /// id is refused with `Duplicate` and changes nothing.
    pub fn insert(&mut self, p: Payment) -> (r: Result<(), LedgerError>)
        requires
            old(self).wf(),
        ensures
            final(self).wf(),
            final(self)@ == ledger_insert(old(self)@, p),
            has_id(final(self)@, p.correlation_id),
            r == (if has_id(old(self)@, p.correlation_id) {
                Err::<(), LedgerError>(LedgerError::Duplicate)
            } else {
                Ok(())
            }),
    {
        match self.find(p.correlation_id) {
            Some(i) => {
                proof {
                    lemma_insert_keeps_distinct(self@, p);
                }
                Err(LedgerError::Duplicate)
            },
            None => {
                self.records.push(p.to_record());
                proof {
                    lemma_insert_keeps_distinct(old(self)@, p);
                }
                Ok(())
            },
        }
    }

    /// Records which processor settled the payment `id`.
    pub fn set_processed_by(&mut self, id: u128, processor: String) -> (r: Result<(), LedgerError>)
        requires
            old(self).wf(),
        ensures
            final(self).wf(),
            r is Err <==> !has_id(old(self)@, id),
            r is Err ==> r == Err::<(), LedgerError>(LedgerError::UnknownPayment) && final(self)@
                == old(self)@,
            r is Ok ==> exists|i: int|
                0 <= i < old(self)@.len() && old(self)@[i].id == id && final(self)@ == old(
                    self,
                )@.update(
                    i,
                    PaymentRecord { processed_by: Some(processor), ..old(self)@[i] },
                ),
    {
        match self.find(id) {
            None => Err(LedgerError::UnknownPayment),
            Some(i) => {
                let old_record = &self.records[i];
                let updated = PaymentRecord {
                    id: old_record.id,
                    amount: old_record.amount,
                    requested_at: old_record.requested_at,
                    processed_by: Some(processor),
                };
                self.records.set(i, updated);
                Ok(())
            },
        }
    }
}

proof fn lemma_count_absent(s: Seq<PaymentRecord>, id: u128)
    requires
        !has_id(s, id),
    ensures
        count_id(s, id) == 0,
    decreases s.len(),
{
    if s.len() > 0 {
        assert(!has_id(s.drop_last(), id)) by {
            if has_id(s.drop_last(), id) {
                let i = choose|i: int| 0 <= i < s.drop_last().len() && s.drop_last()[i].id == id;
                assert(s[i].id == id);
            }
        }
        lemma_count_absent(s.drop_last(), id);
    }
}

/// In a log with distinct ids, a present id is carried by exactly one record.
pub proof fn lemma_count_present(s: Seq<PaymentRecord>, id: u128)
    requires
        ids_distinct(s),
        has_id(s, id),
    ensures
        count_id(s, id) == 1,
    decreases s.len(),
{
    let prefix = s.drop_last();
    if s.last().id == id {
        assert(!has_id(prefix, id)) by {
            if has_id(prefix, id) {
                let i = choose|i: int| 0 <= i < prefix.len() && prefix[i].id == id;
                assert(s[i].id == s[s.len() - 1].id);
            }
        }
        lemma_count_absent(prefix, id);
    } else {
        let i = choose|i: int| 0 <= i < s.len() && s[i].id == id;
        assert(prefix[i].id == id);
        lemma_count_present(prefix, id);
    }
}

/// Inserting keeps the ids distinct.
pub proof fn lemma_insert_keeps_distinct(s: Seq<PaymentRecord>, p: Payment)
    requires
        ids_distinct(s),
    ensures
        ids_distinct(ledger_insert(s, p)),
        has_id(ledger_insert(s, p), p.correlation_id),
{
    let t = ledger_insert(s, p);
    if !has_id(s, p.correlation_id) {
        assert(t[s.len() as int].id == p.correlation_id);
    }
}

/// Idempotency: two submissions with the same correlation id, in either
/// order and whatever the log held before, leave exactly one record with
/// that id, and the second one changes nothing.
pub proof fn lemma_idempotent_insert(s: Seq<PaymentRecord>, p: Payment, q: Payment)
    requires
        ids_distinct(s),
        p.correlation_id == q.correlation_id,
    ensures
        ledger_insert(ledger_insert(s, p), q) == ledger_insert(s, p),
        count_id(ledger_insert(ledger_insert(s, p), q), p.correlation_id) == 1,
{
    lemma_insert_keeps_distinct(s, p);
    lemma_count_present(ledger_insert(s, p), p.correlation_id);
}

} // verus!
