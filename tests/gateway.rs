use payment_gateway::admission::AdmissionGate;
use payment_gateway::config::{Config, ConfigError, ProcessorConfig};
use payment_gateway::ledger::{LedgerError, PaymentLedger};
use payment_gateway::payment::Payment;
use payment_gateway::router::{FailoverRouter, RouteDecision};
use payment_gateway::summary::{
    is_in_window, processor_totals, summarize, summary_window, EARLIEST_MICROS, LATEST_MICROS,
};
use payment_gateway::worker::{InsertOutcome, Phase, SettlementWorker, WorkerAction};

fn names(list: &[&str]) -> Vec<String> {
    list.iter().map(|s| s.to_string()).collect()
}

/// Runs one payment through a worker against a ledger and processors that
/// answer by `accepts(target, attempt)`; returns the targets submitted to.
fn settle(
    ledger: &mut PaymentLedger,
    payment: Payment,
    processors: &[String],
    accepts: impl Fn(usize, usize) -> bool,
) -> Vec<usize> {
    let mut worker = SettlementWorker::new(processors.len(), 1);
    let mut action = WorkerAction::Insert;
    let mut tried = Vec::new();
    let mut attempt = 0usize;
    loop {
        action = match action {
            WorkerAction::Insert => {
                let outcome = match ledger.insert(payment) {
                    Ok(()) => InsertOutcome::Inserted,
                    Err(_) => InsertOutcome::Duplicate,
                };
                worker.on_insert(outcome)
            }
            WorkerAction::Submit { target } | WorkerAction::RetryAfter { target, .. } => {
                tried.push(target);
                let ok = accepts(target, attempt);
                attempt += 1;
                worker.on_response(ok)
            }
            WorkerAction::Update { target } => {
                let ok = ledger
                    .set_processed_by(payment.correlation_id, processors[target].clone())
                    .is_ok();
                worker.on_update(ok)
            }
            WorkerAction::Finish => break,
        };
    }
    assert!(worker.is_done());
    tried
}

fn processed_by(ledger: &PaymentLedger, id: u128) -> Option<String> {
    ledger
        .records()
        .iter()
        .find(|r| r.id == id)
        .and_then(|r| r.processed_by.clone())
}

#[test]
fn duplicate_submission_keeps_one_record() {
    let mut ledger = PaymentLedger::new();
    let procs = names(&["default", "fallback"]);
    let p = Payment::new(7, 1990, 100);
    let first = settle(&mut ledger, p, &procs, |_, _| true);
    let second = settle(&mut ledger, Payment::new(7, 500, 200), &procs, |_, _| true);
    assert_eq!(first, vec![0]);
    assert!(second.is_empty());
    assert_eq!(ledger.records().len(), 1);
    assert_eq!(ledger.records()[0].amount, 1990);
    assert_eq!(ledger.insert(p), Err(LedgerError::Duplicate));
}

#[test]
fn failover_settles_on_healthy_processor() {
    let mut ledger = PaymentLedger::new();
    let procs = names(&["a", "b"]);
    let tried = settle(&mut ledger, Payment::new(1, 100, 0), &procs, |t, _| t == 1);
    assert_eq!(tried, vec![0, 1]);
    assert_eq!(processed_by(&ledger, 1), Some("b".to_string()));
}

#[test]
fn round_robin_three_failures_then_success() {
    let mut ledger = PaymentLedger::new();
    let procs = names(&["p0", "p1"]);
    let tried = settle(&mut ledger, Payment::new(2, 100, 0), &procs, |_, a| a == 3);
    assert_eq!(tried, vec![0, 1, 0, 1]);
    assert_eq!(processed_by(&ledger, 2), Some("p1".to_string()));
}

#[test]
fn router_backoff_grows_with_floor() {
    let mut r = FailoverRouter::new(3, 5);
    assert_eq!(r.current_target(), 0);
    assert_eq!(r.on_outcome(false), RouteDecision::Retry { target: 1, wait_millis: 5 });
    assert_eq!(FailoverRouter::backoff_millis(4, 5), 5);
    assert_eq!(FailoverRouter::backoff_millis(9, 5), 10);
    assert_eq!(FailoverRouter::backoff_millis(0, 0), 1);
    assert_eq!(r.on_outcome(false), RouteDecision::Retry { target: 2, wait_millis: 5 });
    assert_eq!(r.on_outcome(true), RouteDecision::Settled { target: 2 });
    assert_eq!(r.attempts, 2);
}

#[test]
fn worker_retries_store_failures() {
    let mut w = SettlementWorker::new(2, 1);
    assert_eq!(w.on_insert(InsertOutcome::Failed), WorkerAction::Insert);
    assert_eq!(w.phase, Phase::Persisting);
    assert_eq!(w.on_insert(InsertOutcome::Inserted), WorkerAction::Submit { target: 0 });
    assert_eq!(
        w.on_response(false),
        WorkerAction::RetryAfter { target: 1, wait_millis: 1 }
    );
    assert_eq!(w.on_response(true), WorkerAction::Update { target: 1 });
    assert_eq!(w.on_update(false), WorkerAction::Update { target: 1 });
    assert_eq!(w.phase, Phase::Reconciling { target: 1 });
    assert_eq!(w.on_update(true), WorkerAction::Finish);
    assert!(w.is_done());
}

#[test]
fn worker_finishes_on_duplicate() {
    let mut w = SettlementWorker::new(1, 1);
    assert_eq!(w.on_insert(InsertOutcome::Duplicate), WorkerAction::Finish);
    assert!(w.is_done());
}

#[test]
fn admission_never_exceeds_bound() {
    let mut gate = AdmissionGate::new(3);
    let mut admitted = 0;
    for _ in 0..10 {
        if gate.try_admit() {
            admitted += 1;
        }
        assert!(gate.in_flight <= 3);
    }
    assert_eq!(admitted, 3);
    gate.release();
    assert_eq!(gate.in_flight, 2);
    assert!(gate.try_admit());
    assert!(!gate.try_admit());
}

#[test]
fn single_slot_serializes_workers() {
    let mut gate = AdmissionGate::new(1);
    assert!(!gate.is_busy());
    assert!(gate.try_admit()); // X
    assert!(!gate.try_admit()); // Y waits
    assert!(!gate.try_admit());
    gate.release(); // X's pipeline completed
    assert!(gate.try_admit()); // Y
    assert!(gate.is_busy());
}

#[test]
fn admission_with_zero_bound_admits_nothing() {
    let mut gate = AdmissionGate::new(0);
    assert!(!gate.try_admit());
    assert_eq!(gate.in_flight, 0);
}

#[test]
fn summary_lists_idle_processor_with_zeros() {
    let mut ledger = PaymentLedger::new();
    ledger.insert(Payment::new(1, 1990, 10)).unwrap();
    ledger.set_processed_by(1, "default".to_string()).unwrap();
    let s = summarize(ledger.records(), &names(&["default", "fallback"]), 0, 100);
    assert_eq!(s.len(), 2);
    assert_eq!(s[0].name, "default");
    assert_eq!(s[0].total_amount, 1990);
    assert_eq!(s[0].total_requests, 1);
    assert_eq!(s[1].name, "fallback");
    assert_eq!(s[1].total_amount, 0);
    assert_eq!(s[1].total_requests, 0);
}

#[test]
fn summary_window_is_half_open() {
    let mut ledger = PaymentLedger::new();
    for (id, at) in [(1u128, 100i64), (2, 200), (3, 150), (4, 99)] {
        ledger.insert(Payment::new(id, 1000 + id as i64, at)).unwrap();
        ledger.set_processed_by(id, "x".to_string()).unwrap();
    }
    let (total, count) = processor_totals(ledger.records(), &"x".to_string(), 100, 200);
    assert_eq!(count, 2);
    assert_eq!(total, 1001 + 1003);
    assert!(is_in_window(100, 100, 200));
    assert!(!is_in_window(200, 100, 200));
}

#[test]
fn summary_ignores_unsettled_and_other_processors() {
    let mut ledger = PaymentLedger::new();
    ledger.insert(Payment::new(1, 10, 5)).unwrap();
    ledger.insert(Payment::new(2, 20, 5)).unwrap();
    ledger.insert(Payment::new(3, -5, 5)).unwrap();
    ledger.set_processed_by(2, "b".to_string()).unwrap();
    ledger.set_processed_by(3, "a".to_string()).unwrap();
    let s = summarize(ledger.records(), &names(&["a", "b"]), 0, 10);
    assert_eq!((s[0].total_amount, s[0].total_requests), (-5, 1));
    assert_eq!((s[1].total_amount, s[1].total_requests), (20, 1));
}

#[test]
fn summary_sums_large_amounts_exactly() {
    let mut ledger = PaymentLedger::new();
    ledger.insert(Payment::new(1, i64::MAX, 0)).unwrap();
    ledger.insert(Payment::new(2, i64::MAX, 0)).unwrap();
    ledger.set_processed_by(1, "a".to_string()).unwrap();
    ledger.set_processed_by(2, "a".to_string()).unwrap();
    let (total, count) = processor_totals(ledger.records(), &"a".to_string(), 0, 1);
    assert_eq!(total, 2 * i64::MAX as i128);
    assert_eq!(count, 2);
}

#[test]
fn default_window_spans_everything() {
    assert_eq!(summary_window(None, None), (EARLIEST_MICROS, LATEST_MICROS));
    assert_eq!(summary_window(Some(5), None), (5, LATEST_MICROS));
    assert_eq!(summary_window(None, Some(9)), (EARLIEST_MICROS, 9));
    assert_eq!(EARLIEST_MICROS, -62_167_219_200 * 1_000_000);
    assert_eq!(LATEST_MICROS, 253_402_300_799_999 * 1_000);
}

#[test]
fn ledger_update_of_unknown_payment_fails() {
    let mut ledger = PaymentLedger::new();
    assert_eq!(
        ledger.set_processed_by(9, "a".to_string()),
        Err(LedgerError::UnknownPayment)
    );
    assert_eq!(ledger.find(9), None);
    ledger.insert(Payment::new(9, 1, 1)).unwrap();
    assert_eq!(ledger.find(9), Some(0));
    assert_eq!(ledger.records()[0].processed_by, None);
}

fn config(procs: Vec<ProcessorConfig>) -> Config {
    Config {
        listen_port: 9999,
        database_url: "postgres://localhost/db".to_string(),
        log_level: "info".to_string(),
        max_in_flight: 4,
        max_wait_millis: 10,
        external_processors: procs,
    }
}

#[test]
fn config_validation() {
    assert_eq!(config(vec![]).validate(), Err(ConfigError::NoProcessors));
    let c = config(vec![
        ProcessorConfig { name: "default".to_string(), endpoint: "http://d/payments".to_string() },
        ProcessorConfig { name: "fallback".to_string(), endpoint: "http://f/payments".to_string() },
    ]);
    assert_eq!(c.validate(), Ok(()));
    assert_eq!(c.processor_names(), names(&["default", "fallback"]));
    assert_eq!(c.max_wait(), 10);
}
