use vstd::prelude::*;

verus! {

/// An accepted payment submission, the unit placed on the submission queue.
///
/// `correlation_id` is the UUID's 128 bits; `amount` is an exact fixed-point
/// amount in hundredths of the currency unit; `requested_at` is the
/// acceptance time in microseconds since the Unix epoch (UTC).
#[derive(Clone, Copy, Debug, PartialEq, Eq, Structural)]
pub struct Payment {
    pub correlation_id: u128,
    pub amount: i64,
    pub requested_at: i64,
}

/// A persisted payment: the payment's fields and, once a processor settled
/// it, that processor's name.
#[derive(Clone, Debug)]
pub struct PaymentRecord {
    pub id: u128,
    pub amount: i64,
    pub requested_at: i64,
    pub processed_by: Option<String>,
}

/// The record that the first insert of `p` creates: not yet settled.
pub open spec fn record_of(p: Payment) -> PaymentRecord {
    PaymentRecord {
        id: p.correlation_id,
        amount: p.amount,
        requested_at: p.requested_at,
        processed_by: None,
    }
}

impl Payment {
    pub fn new(correlation_id: u128, amount: i64, requested_at: i64) -> (r: Payment)
        ensures
            r.correlation_id == correlation_id,
            r.amount == amount,
            r.requested_at == requested_at,
    {
        Payment { correlation_id, amount, requested_at }
    }

    /// The record that persisting this payment creates.
    pub fn to_record(&self) -> (r: PaymentRecord)
        ensures
            r == record_of(*self),
    {
        PaymentRecord {
            id: self.correlation_id,
            amount: self.amount,
            requested_at: self.requested_at,
            processed_by: None,
        }
    }
}

} // verus!
