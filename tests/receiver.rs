use merchant_sync::calculator::{
    after_dispatch, event_from_payload, next_action, record_from_event, EventPayload, LoopAction,
    Merchant, MerchantUpsertedHandlerBuilder, PollEvent,
};
use merchant_sync::importer::{normalize_merchant_rows, shape_event};
use merchant_sync::model::{Date, DisbursementFrequency, ValidationError};
use merchant_sync::store::UpsertStore;

fn payload(reference: Option<&str>, live_on: Option<&str>, freq: Option<&str>, fee: Option<i64>) -> EventPayload {
    EventPayload {
        merchant_reference: reference.map(|s| s.to_string()),
        live_on: live_on.map(|s| s.to_string()),
        disbursement_frequency: freq.map(|s| s.to_string()),
        minimum_monthly_fee: fee,
    }
}

#[test]
fn shaped_event_round_trips_to_the_receiver() {
    let row: Vec<String> = ["86312006-4d7e-45c4-9c28-788f4aa68a62", "acme", "billing@acme.com", "2024-01-01", "DAILY", "12.50"]
        .iter()
        .map(|s| s.to_string())
        .collect();
    let m = normalize_merchant_rows(&vec![row]).unwrap().remove(0);
    let e = shape_event(&m);
    let p = payload(
        Some(&e.merchant_reference),
        Some(&format!("{:04}-{:02}-{:02}", e.live_on.year, e.live_on.month, e.live_on.day)),
        Some(&e.disbursement_frequency.to_token()),
        Some(e.minimum_monthly_fee as i64),
    );
    let mut handler = MerchantUpsertedHandlerBuilder.build(UpsertStore::new());
    handler.handle(&p).unwrap();
    let r = handler.store().get(&"acme".to_string()).unwrap();
    assert_eq!(r.merchant_reference, m.merchant_reference);
    assert_eq!(r.live_on, m.live_on);
    assert_eq!(r.disbursement_frequency, m.disbursement_frequency);
    assert_eq!(r.minimum_monthly_fee, m.minimum_monthly_fee);
    assert_ne!(r.id, m.id);
}

#[test]
fn receiver_keeps_its_identifier_on_update() {
    let mut handler = MerchantUpsertedHandlerBuilder.build(UpsertStore::new());
    handler.handle_with_id(&payload(Some("acme"), Some("2024-01-01"), Some("DAILY"), Some(1250)), 7).unwrap();
    handler.handle_with_id(&payload(Some("acme"), Some("2024-03-01"), Some("WEEKLY"), Some(0)), 8).unwrap();
    assert_eq!(handler.store().len(), 1);
    let r = handler.store().get(&"acme".to_string()).unwrap();
    assert_eq!(r.id, 7);
    assert_eq!(r.live_on, Date { year: 2024, month: 3, day: 1 });
    assert_eq!(r.disbursement_frequency, DisbursementFrequency::Weekly);
    assert_eq!(r.minimum_monthly_fee, 0);
}

#[test]
fn handling_a_payload_twice_equals_once() {
    let mut handler = MerchantUpsertedHandlerBuilder.build(UpsertStore::new());
    let p = payload(Some("acme"), Some("2024-01-01"), Some("DAILY"), Some(5));
    handler.handle(&p).unwrap();
    let once: Merchant = handler.store().get(&"acme".to_string()).unwrap().clone();
    handler.handle(&p).unwrap();
    assert_eq!(handler.store().len(), 1);
    assert_eq!(handler.store().get(&"acme".to_string()).unwrap(), &once);
}

#[test]
fn fresh_identifiers_differ() {
    let mut handler = MerchantUpsertedHandlerBuilder.build(UpsertStore::new());
    handler.handle(&payload(Some("a"), Some("2024-01-01"), Some("DAILY"), Some(5))).unwrap();
    handler.handle(&payload(Some("b"), Some("2024-01-01"), Some("DAILY"), Some(5))).unwrap();
    let a = handler.store().get(&"a".to_string()).unwrap().id;
    let b = handler.store().get(&"b".to_string()).unwrap().id;
    assert_ne!(a, b);
}

#[test]
fn missing_reference_and_fee_default_to_empty_and_zero() {
    let e = event_from_payload(&payload(None, Some("2024-01-01"), Some("WEEKLY"), None)).unwrap();
    assert_eq!(e.merchant_reference, "");
    assert_eq!(e.minimum_monthly_fee, 0);
    let r = record_from_event(e, 3);
    assert_eq!(r.id, 3);
    assert_eq!(r.disbursement_frequency, DisbursementFrequency::Weekly);
}

#[test]
fn payload_errors() {
    assert_eq!(event_from_payload(&payload(Some("a"), None, Some("DAILY"), Some(1))), Err(ValidationError::InvalidDate));
    assert_eq!(event_from_payload(&payload(Some("a"), Some("2024-1-1x"), Some("DAILY"), Some(1))), Err(ValidationError::InvalidDate));
    assert_eq!(event_from_payload(&payload(Some("a"), Some("2024-01-01"), Some("daily"), Some(1))), Err(ValidationError::UnknownFrequency));
    assert_eq!(event_from_payload(&payload(Some("a"), Some("2024-01-01"), None, Some(1))), Err(ValidationError::UnknownFrequency));
    assert_eq!(event_from_payload(&payload(Some("a"), Some("2024-01-01"), Some("DAILY"), Some(1 << 40))), Err(ValidationError::InvalidFee));
    let mut handler = MerchantUpsertedHandlerBuilder.build(UpsertStore::new());
    assert_eq!(handler.handle(&payload(Some("a"), Some("2024-01-01"), Some("MONTHLY"), Some(1))), Err(ValidationError::UnknownFrequency));
    assert_eq!(handler.store().len(), 0);
}

#[test]
fn consumer_only_stops_when_the_stream_ends() {
    assert_eq!(next_action(PollEvent::Closed), LoopAction::Stop);
    assert_eq!(next_action(PollEvent::Decoded), LoopAction::Dispatch);
    assert_eq!(next_action(PollEvent::BrokerError), LoopAction::Poll);
    assert_eq!(next_action(PollEvent::EmptyMessage), LoopAction::Poll);
    assert_eq!(next_action(PollEvent::Undecodable), LoopAction::Poll);
    assert_eq!(after_dispatch(&Err(ValidationError::InvalidDate)), LoopAction::Poll);
    assert_eq!(after_dispatch(&Ok(())), LoopAction::Poll);
}
