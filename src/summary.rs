use vstd::prelude::*;

use crate::payment::PaymentRecord;

verus! {

/// The start of the window when none is given: 0000-01-01T00:00:00.000Z, in
/// microseconds since the Unix epoch.
pub const EARLIEST_MICROS: i64 = -62167219200000000;

/// The end of the window when none is given: 9999-12-31T23:59:59.999Z, in
/// microseconds since the Unix epoch.
pub const LATEST_MICROS: i64 = 253402300799999000;

/// One processor's totals over a window.
#[derive(Clone, Debug)]
pub struct ProcessorSummary {
    pub name: String,
    /// Sum of the settled amounts, in hundredths of the currency unit.
    pub total_amount: i128,
    pub total_requests: usize,
}

/// The half-open window [from, to).
pub open spec fn in_window(t: int, from: int, to: int) -> bool {
    from <= t < to
}

/// Whether `r` was settled by `name` and requested inside [from, to).
pub open spec fn counts_for(r: PaymentRecord, name: Seq<char>, from: int, to: int) -> bool {
    match r.processed_by {
        Some(p) => p@ == name && in_window(r.requested_at as int, from, to),
        None => false,
    }
}

/// Sum of the amounts of the records in `s` that count for `name`.
pub open spec fn total_amount_of(s: Seq<PaymentRecord>, name: Seq<char>, from: int, to: int) -> int
    decreases s.len(),
{
    if s.len() == 0 {
        0
    } else {
        total_amount_of(s.drop_last(), name, from, to) + if counts_for(s.last(), name, from, to) {
            s.last().amount as int
        } else {
            0int
        }
    }
}

/// Number of the records in `s` that count for `name`.
pub open spec fn total_requests_of(s: Seq<PaymentRecord>, name: Seq<char>, from: int, to: int) -> nat
    decreases s.len(),
{
    if s.len() == 0 {
        0
    } else {
        total_requests_of(s.drop_last(), name, from, to) + if counts_for(
            s.last(),
            name,
            from,
            to,
        ) {
            1nat
        } else {
            0nat
        }
    }
}

/// The entry that the summary holds for `name`.
pub open spec fn summary_entry(
    s: Seq<PaymentRecord>,
    name: Seq<char>,
    from: int,
    to: int,
    e: ProcessorSummary,
) -> bool {
    &&& e.name@ == name
    &&& e.total_amount == total_amount_of(s, name, from, to)
    &&& e.total_requests == total_requests_of(s, name, from, to)
}

proof fn lemma_totals_bounded(s: Seq<PaymentRecord>, name: Seq<char>, from: int, to: int)
    ensures
        -(s.len() * 0x8000_0000_0000_0000) <= total_amount_of(s, name, from, to) <= s.len()
            * 0x8000_0000_0000_0000,
        total_requests_of(s, name, from, to) <= s.len(),
    decreases s.len(),
{
    if s.len() > 0 {
        lemma_totals_bounded(s.drop_last(), name, from, to);
        let n = s.len() as int;
        assert((n - 1) * 0x8000_0000_0000_0000 + 0x8000_0000_0000_0000 == n * 0x8000_0000_0000_0000)
            by (nonlinear_arith);
    }
}

/// Whether `t` lies in the half-open window [from, to).
pub fn is_in_window(t: i64, from: i64, to: i64) -> (r: bool)
    ensures
        r == in_window(t as int, from as int, to as int),
{
    from <= t && t < to
}

/// The window of a summary query: each bound not given spans the whole
/// representable range.
pub fn summary_window(from: Option<i64>, to: Option<i64>) -> (r: (i64, i64))
    ensures
        r.0 == (match from {
            Some(f) => f,
            None => EARLIEST_MICROS,
        }),
        r.1 == (match to {
            Some(t) => t,
            None => LATEST_MICROS,
        }),
{
    let f = match from {
        Some(f) => f,
        None => EARLIEST_MICROS,
    };
    let t = match to {
        Some(t) => t,
        None => LATEST_MICROS,
    };
    (f, t)
}

/// The total amount and the number of records settled by `name` and
/// requested inside [from, to). Amounts are summed exactly.
pub fn processor_totals(records: &Vec<PaymentRecord>, name: &String, from: i64, to: i64) -> (r: (
    i128,
    usize,
))
    ensures
        r.0 == total_amount_of(records@, name@, from as int, to as int),
        r.1 == total_requests_of(records@, name@, from as int, to as int),
{
    let mut total: i128 = 0;
    let mut count: usize = 0;
    let mut i: usize = 0;
    while i < records.len()
        invariant
            i <= records@.len(),
            total == total_amount_of(records@.take(i as int), name@, from as int, to as int),
            count == total_requests_of(records@.take(i as int), name@, from as int, to as int),
        decreases records@.len() - i,
    {
        let record = &records[i];
        let settled_here = match &record.processed_by {
            Some(p) => p.eq(name),
            None => false,
        };
        proof {
            let next = records@.take(i + 1);
            assert(next.drop_last() =~= records@.take(i as int));
            assert(next.last() == records@[i as int]);
        }
        if settled_here && is_in_window(record.requested_at, from, to) {
            proof {
                lemma_totals_bounded(records@.take(i as int), name@, from as int, to as int);
                let k = i as int;
                assert(k * 0x8000_0000_0000_0000 + 0x8000_0000_0000_0000 < 0x7fff_ffff_ffff_ffff_ffff_ffff_ffff_ffff)
                    by (nonlinear_arith)
                    requires
                        0 <= k < 0xffff_ffff_ffff_ffff,
                ;
            }
            total = total + record.amount as i128;
            count = count + 1;
        }
        i = i + 1;
    }
    assert(records@.take(records@.len() as int) =~= records@);
    (total, count)
}

/// Per-processor totals over [from, to): one entry for each configured
/// processor, in registry order, also for one that settled nothing in the
/// window.
pub fn summarize(records: &Vec<PaymentRecord>, names: &Vec<String>, from: i64, to: i64) -> (r: Vec<
    ProcessorSummary,
>)
    ensures
        r@.len() == names@.len(),
        forall|k: int|
            0 <= k < names@.len() ==> summary_entry(
                records@,
                names@[k]@,
                from as int,
                to as int,
                #[trigger] r@[k],
            ),
{
    let mut out: Vec<ProcessorSummary> = Vec::new();
    let mut k: usize = 0;
    while k < names.len()
        invariant
            k <= names@.len(),
            out@.len() == k,
            forall|j: int|
                0 <= j < k ==> summary_entry(
                    records@,
                    names@[j]@,
                    from as int,
                    to as int,
                    #[trigger] out@[j],
                ),
        decreases names@.len() - k,
    {
        let name = &names[k];
        let (total_amount, total_requests) = processor_totals(records, name, from, to);
        out.push(ProcessorSummary { name: name.clone(), total_amount, total_requests });
        k = k + 1;
    }
    out
}

/// Completeness: a configured processor that settled nothing inside the
/// window still has its entry in the summary, with a zero amount and a zero
/// count.
pub proof fn lemma_idle_processor_zero(
    s: Seq<PaymentRecord>,
    name: Seq<char>,
    from: int,
    to: int,
    entry: ProcessorSummary,
)
    requires
        forall|i: int| 0 <= i < s.len() ==> !counts_for(#[trigger] s[i], name, from, to),
        summary_entry(s, name, from, to, entry),
    ensures
        entry.name@ == name,
        entry.total_amount == 0,
        entry.total_requests == 0,
{
    lemma_no_match_totals(s, name, from, to);
}

proof fn lemma_no_match_totals(s: Seq<PaymentRecord>, name: Seq<char>, from: int, to: int)
    requires
        forall|i: int| 0 <= i < s.len() ==> !counts_for(#[trigger] s[i], name, from, to),
    ensures
        total_amount_of(s, name, from, to) == 0,
        total_requests_of(s, name, from, to) == 0,
    decreases s.len(),
{
    if s.len() > 0 {
        let prefix = s.drop_last();
        assert forall|i: int| 0 <= i < prefix.len() implies !counts_for(
            #[trigger] prefix[i],
            name,
            from,
            to,
        ) by {
            assert(prefix[i] == s[i]);
        }
        lemma_no_match_totals(prefix, name, from, to);
    }
}

/// Window semantics: the window is half-open, so a record requested exactly
/// at `from` counts for its processor and one requested exactly at `to` does
/// not; appending either to a log changes the totals accordingly.
pub proof fn lemma_window_half_open(
    s: Seq<PaymentRecord>,
    r: PaymentRecord,
    name: Seq<char>,
    from: int,
    to: int,
)
    requires
        r.processed_by matches Some(p) && p@ == name,
        from < to,
    ensures
        r.requested_at == from ==> total_amount_of(s.push(r), name, from, to) == total_amount_of(
            s,
            name,
            from,
            to,
        ) + r.amount && total_requests_of(s.push(r), name, from, to) == total_requests_of(
            s,
            name,
            from,
            to,
        ) + 1,
        r.requested_at == to ==> total_amount_of(s.push(r), name, from, to) == total_amount_of(
            s,
            name,
            from,
            to,
        ) && total_requests_of(s.push(r), name, from, to) == total_requests_of(
            s,
            name,
            from,
            to,
        ),
{
    assert(s.push(r).drop_last() =~= s);
}

} // verus!
