use satsforgood::invoice::{CreateInvoiceRequest, InvoiceError, InvoiceState};
use satsforgood::ledger::{Donation, DonationLedger};
use satsforgood::store::InvoiceStore;

fn donation(pid: &str, amount: u64, at: i64) -> Donation {
    Donation {
        id: format!("rec-{}", pid),
        donor_name: "Anonymous".to_string(),
        recipient: None,
        amount,
        payment_id: pid.to_string(),
        paid_at: at,
    }
}

#[test]
fn ledger_append_is_deduplicated() {
    let mut l = DonationLedger::new();
    assert!(l.append(donation("pay-a", 100, 1)));
    assert!(!l.append(donation("pay-a", 900, 2)));
    assert!(l.append(donation("pay-b", 200, 3)));
    assert_eq!(l.len(), 2);
    assert!(l.contains(&"pay-a".to_string()));
    assert_eq!(l.find(&"pay-a".to_string()).map(|d| d.amount), Some(100));
    assert!(l.find(&"pay-c".to_string()).is_none());
    let s = l.stats();
    assert_eq!(s.total_amount, 300);
    assert_eq!(s.donor_count, 2);
}

#[test]
fn ledger_stats_do_not_overflow() {
    let mut l = DonationLedger::new();
    l.append(donation("a", u64::MAX, 1));
    l.append(donation("b", u64::MAX, 2));
    assert_eq!(l.stats().total_amount, 2 * (u64::MAX as u128));
    assert_eq!(DonationLedger::new().stats().total_amount, 0);
}

#[test]
fn ledger_recent_is_newest_first() {
    let mut l = DonationLedger::new();
    for (i, p) in ["a", "b", "c"].iter().enumerate() {
        l.append(donation(p, 100, i as i64));
    }
    let r: Vec<String> = l.recent(2).into_iter().map(|d| d.payment_id).collect();
    assert_eq!(r, vec!["c".to_string(), "b".to_string()]);
    assert_eq!(l.recent(10).len(), 3);
}

#[test]
fn store_create_get_upsert_remove() {
    let mut s = InvoiceStore::new();
    let req = CreateInvoiceRequest { amount: 500, donor_name: None, recipient: None };
    let inv = s.create(&req, &[1; 32], "w".to_string(), 0).expect("created");
    assert_eq!(s.create(&req, &[1; 32], "w".to_string(), 1).err(), Some(InvoiceError::DuplicatePayment));
    let bad = CreateInvoiceRequest { amount: 5, donor_name: None, recipient: None };
    assert_eq!(s.create(&bad, &[2; 32], "w".to_string(), 1).err(), Some(InvoiceError::InvalidAmount));
    assert!(s.contains(&inv.payment_id));
    let mut paid = s.get(&inv.payment_id).expect("held");
    paid.state = InvoiceState::Paid;
    paid.paid_at = Some(7);
    s.upsert(paid);
    assert_eq!(s.get(&inv.payment_id).map(|i| i.state), Some(InvoiceState::Paid));
    assert_eq!(s.len(), 1);
    // A Paid invoice is never swept.
    s.sweep(1_000_000);
    assert_eq!(s.len(), 1);
    assert!(s.remove(&inv.payment_id).is_some());
    assert!(s.remove(&inv.payment_id).is_none());
    assert_eq!(s.len(), 0);
}
