use satsforgood::coordinator::{Coordinator, PaymentStatus};
use satsforgood::invoice::{CreateInvoiceRequest, InvoiceError, InvoiceState, INVOICE_TTL_SECONDS};
use satsforgood::settlement::{SettlementSimulator, PaymentVerifier, VerifierError};
use satsforgood::invoice::Invoice;

const T0: i64 = 1_700_000_000;

fn request(amount: u64) -> CreateInvoiceRequest {
    CreateInvoiceRequest { amount, donor_name: None, recipient: None }
}

fn named(amount: u64, donor: &str, recipient: &str) -> CreateInvoiceRequest {
    CreateInvoiceRequest {
        amount,
        donor_name: Some(donor.to_string()),
        recipient: Some(recipient.to_string()),
    }
}

fn hash(seed: u8) -> [u8; 32] {
    [seed; 32]
}

fn create(c: &mut Coordinator, req: &CreateInvoiceRequest, seed: u8, now: i64) -> Invoice {
    c.create_invoice(req, &hash(seed), "lnbc-wire".to_string(), now).expect("created")
}

#[test]
fn create_valid_amount_is_pending_with_ttl() {
    let mut c = Coordinator::new();
    for (i, amount) in [100u64, 101, 5000, 999_999, 1_000_000].iter().enumerate() {
        let inv = create(&mut c, &request(*amount), i as u8, T0);
        assert_eq!(inv.state, InvoiceState::Pending);
        assert_eq!(inv.created_at, T0);
        assert_eq!(inv.expires_at, T0 + INVOICE_TTL_SECONDS);
        assert_eq!(inv.expires_at, T0 + 3600);
        assert_eq!(inv.paid_at, None);
        assert_eq!(inv.amount, *amount);
        assert_eq!(inv.wire, "lnbc-wire");
    }
    assert_eq!(c.pending_count(), 5);
}

#[test]
fn create_out_of_range_is_rejected_without_entry() {
    let mut c = Coordinator::new();
    for amount in [0u64, 50, 99, 1_000_001, u64::MAX] {
        let r = c.create_invoice(&request(amount), &hash(1), String::new(), T0);
        assert_eq!(r.err(), Some(InvoiceError::InvalidAmount));
        assert_eq!(c.pending_count(), 0);
    }
}

#[test]
fn below_minimum_has_no_side_effects() {
    let mut c = Coordinator::new();
    let first = create(&mut c, &request(5000), 1, T0);
    // The first invoice is overdue by now; a rejected create must not sweep it.
    let later = T0 + 2 * 3600;
    let r = c.create_invoice(&request(50), &hash(2), String::new(), later);
    assert_eq!(r.err(), Some(InvoiceError::InvalidAmount));
    assert_eq!(c.pending_count(), 1);
    assert!(c.pending_invoice(&first.payment_id).is_some());
    assert_eq!(c.stats().donor_count, 0);
}

#[test]
fn unknown_identifier_is_not_found() {
    let mut c = Coordinator::new();
    create(&mut c, &request(5000), 1, T0);
    let unknown = "ab".repeat(32);
    assert_eq!(c.check_payment(&unknown, T0, true), PaymentStatus::NotFound);
    assert_eq!(c.check_payment(&unknown, T0 + 10_000, false), PaymentStatus::NotFound);
    assert_eq!(c.confirm_payment(&unknown, T0), PaymentStatus::NotFound);
    assert_eq!(c.pending_count(), 1);
    assert_eq!(c.stats().donor_count, 0);
}

#[test]
fn settle_then_poll_reports_paid_and_updates_stats() {
    let mut c = Coordinator::new();
    let inv = create(&mut c, &request(5000), 7, T0);
    assert_eq!(c.check_payment(&inv.payment_id, T0 + 1, false), PaymentStatus::Pending);
    let mut network = SettlementSimulator::new();
    network.mark_settled(inv.payment_id.clone());
    assert_eq!(c.poll(&network, &inv.payment_id, T0 + 60), PaymentStatus::Paid(T0 + 60));
    let stats = c.stats();
    assert_eq!(stats.total_amount, 5000);
    assert_eq!(stats.donor_count, 1);
    let recent = c.recent(10);
    assert_eq!(recent.len(), 1);
    assert_eq!(recent[0].payment_id, inv.payment_id);
    assert_eq!(recent[0].amount, 5000);
    assert_eq!(recent[0].paid_at, T0 + 60);
    assert_eq!(recent[0].donor_name, "Anonymous");
    assert_eq!(c.pending_count(), 0);
}

#[test]
fn newest_donation_comes_first_in_recent() {
    let mut c = Coordinator::new();
    let a = create(&mut c, &named(1000, "Ann", "Shelter"), 1, T0);
    let b = create(&mut c, &request(5000), 2, T0);
    c.confirm_payment(&a.payment_id, T0 + 5);
    c.confirm_payment(&b.payment_id, T0 + 9);
    let recent = c.recent(10);
    assert_eq!(recent.len(), 2);
    assert_eq!(recent[0].payment_id, b.payment_id);
    assert_eq!(recent[1].payment_id, a.payment_id);
    assert_eq!(recent[1].donor_name, "Ann");
    assert_eq!(recent[1].recipient.as_deref(), Some("Shelter"));
    assert_eq!(c.recent(1).len(), 1);
    assert_eq!(c.recent(1)[0].payment_id, b.payment_id);
    assert!(c.recent(0).is_empty());
    assert_eq!(c.stats().total_amount, 6000);
}

#[test]
fn paid_is_idempotent() {
    let mut c = Coordinator::new();
    let inv = create(&mut c, &request(2500), 3, T0);
    assert_eq!(c.confirm_payment(&inv.payment_id, T0 + 10), PaymentStatus::Paid(T0 + 10));
    for k in 0..5 {
        let t = T0 + 100 + k * 10_000;
        assert_eq!(c.confirm_payment(&inv.payment_id, t), PaymentStatus::Paid(T0 + 10));
        assert_eq!(c.check_payment(&inv.payment_id, t, k % 2 == 0), PaymentStatus::Paid(T0 + 10));
    }
    assert_eq!(c.stats().donor_count, 1);
    assert_eq!(c.stats().total_amount, 2500);
    assert_eq!(c.receipt(&inv.payment_id).map(|d| d.paid_at), Some(T0 + 10));
}

#[test]
fn repeated_confirmations_record_once() {
    let mut c = Coordinator::new();
    let inv = create(&mut c, &request(4000), 4, T0);
    let other = create(&mut c, &request(300), 5, T0);
    for _ in 0..8 {
        assert_eq!(c.confirm_payment(&inv.payment_id, T0 + 1), PaymentStatus::Paid(T0 + 1));
    }
    assert_eq!(c.stats().donor_count, 1);
    assert!(c.pending_invoice(&inv.payment_id).is_none());
    assert!(c.pending_invoice(&other.payment_id).is_some());
    let d = c.receipt(&inv.payment_id).expect("recorded");
    assert_ne!(d.id, d.payment_id);
    assert_eq!(d.id.len(), 36);
}

#[test]
fn expired_then_not_found() {
    let mut c = Coordinator::new();
    let inv = create(&mut c, &request(5000), 9, T0);
    let past = T0 + 3600 + 1;
    assert_eq!(c.check_payment(&inv.payment_id, past, false), PaymentStatus::Expired);
    assert_eq!(c.pending_count(), 0);
    assert_eq!(c.check_payment(&inv.payment_id, past + 1, false), PaymentStatus::NotFound);
    assert_eq!(c.stats().donor_count, 0);
}

#[test]
fn expiry_wins_over_settlement() {
    let mut c = Coordinator::new();
    let inv = create(&mut c, &request(5000), 9, T0);
    // Exactly at the expiry time the invoice is overdue.
    assert_eq!(c.confirm_payment(&inv.payment_id, T0 + 3600), PaymentStatus::Expired);
    assert_eq!(c.confirm_payment(&inv.payment_id, T0 + 3600), PaymentStatus::NotFound);
    assert_eq!(c.stats().donor_count, 0);
}

#[test]
fn last_second_before_expiry_still_settles() {
    let mut c = Coordinator::new();
    let inv = create(&mut c, &request(5000), 9, T0);
    assert_eq!(c.confirm_payment(&inv.payment_id, T0 + 3599), PaymentStatus::Paid(T0 + 3599));
}

#[test]
fn duplicate_payment_hash_is_rejected() {
    let mut c = Coordinator::new();
    let inv = create(&mut c, &request(5000), 1, T0);
    let r = c.create_invoice(&request(700), &hash(1), String::new(), T0 + 1);
    assert_eq!(r.err(), Some(InvoiceError::DuplicatePayment));
    c.confirm_payment(&inv.payment_id, T0 + 2);
    let r = c.create_invoice(&request(700), &hash(1), String::new(), T0 + 3);
    assert_eq!(r.err(), Some(InvoiceError::DuplicatePayment));
    assert_eq!(c.pending_count(), 0);
}

#[test]
fn create_sweeps_overdue_invoices() {
    let mut c = Coordinator::new();
    let old = create(&mut c, &request(5000), 1, T0);
    let fresh = create(&mut c, &request(5000), 2, T0 + 1800);
    create(&mut c, &request(5000), 3, T0 + 3600);
    assert!(c.pending_invoice(&old.payment_id).is_none());
    assert!(c.pending_invoice(&fresh.payment_id).is_some());
    assert_eq!(c.pending_count(), 2);
}

#[test]
fn sweep_expired_drops_only_overdue() {
    let mut c = Coordinator::new();
    let a = create(&mut c, &request(5000), 1, T0);
    let b = create(&mut c, &request(5000), 2, T0 + 100);
    c.sweep_expired(T0 + 3650);
    assert!(c.pending_invoice(&a.payment_id).is_none());
    assert!(c.pending_invoice(&b.payment_id).is_some());
}

struct Down;

impl PaymentVerifier for Down {
    fn is_settled(&self, _payment_id: &String, _invoice: &Invoice) -> Result<bool, VerifierError> {
        Err(VerifierError::Unreachable)
    }
}

#[test]
fn verifier_error_counts_as_unsettled() {
    let mut c = Coordinator::new();
    let inv = create(&mut c, &request(5000), 1, T0);
    assert_eq!(c.poll(&Down, &inv.payment_id, T0 + 5), PaymentStatus::Pending);
    assert_eq!(c.pending_count(), 1);
    assert_eq!(c.stats().donor_count, 0);
}

#[test]
fn unsettled_poll_leaves_invoice_pending() {
    let mut c = Coordinator::new();
    let inv = create(&mut c, &named(100, "Bo", "Park"), 1, T0);
    let network = SettlementSimulator::new();
    assert_eq!(c.poll(&network, &inv.payment_id, T0 + 5), PaymentStatus::Pending);
    let held = c.pending_invoice(&inv.payment_id).expect("held");
    assert_eq!(held.state, InvoiceState::Pending);
    assert_eq!(held.donor_name.as_deref(), Some("Bo"));
}

#[test]
fn snapshot_only_when_verdict_needed() {
    let mut c = Coordinator::new();
    let inv = create(&mut c, &request(5000), 1, T0);
    assert!(c.pending_snapshot(&inv.payment_id, T0 + 1).is_some());
    assert!(c.pending_snapshot(&inv.payment_id, T0 + 3600).is_none());
    assert!(c.pending_snapshot(&"00".repeat(32), T0).is_none());
    c.confirm_payment(&inv.payment_id, T0 + 2);
    assert!(c.pending_snapshot(&inv.payment_id, T0 + 3).is_none());
}

#[test]
fn simulator_knows_marked_payments() {
    let mut network = SettlementSimulator::new();
    assert!(!network.knows_settled(&"x".to_string()));
    network.mark_settled("x".to_string());
    assert!(network.knows_settled(&"x".to_string()));
    assert!(!network.knows_settled(&"y".to_string()));
}
