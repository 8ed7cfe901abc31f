use merchant_sync::fee::parse_fee_cents;
use merchant_sync::importer::{parse_merchant_record, KafkaPublisherBuilder};
use merchant_sync::model::{same_text, Date, DisbursementFrequency, ValidationError};

fn row(fields: &[&str]) -> Vec<String> {
    fields.iter().map(|s| s.to_string()).collect()
}

const ID: &str = "86312006-4d7e-45c4-9c28-788f4aa68a62";

#[test]
fn row_normalizes_reference_date_cadence_and_fee() {
    let r = row(&[ID, "acme", "billing@acme.com", "2024-01-01", "DAILY", "12.50"]);
    let m = parse_merchant_record(&r).unwrap();
    assert_eq!(m.id, uuid::Uuid::parse_str(ID).unwrap().as_u128());
    assert_eq!(m.merchant_reference, "acme");
    assert_eq!(m.email, "billing@acme.com");
    assert_eq!(m.live_on, Date { year: 2024, month: 1, day: 1 });
    assert_eq!(m.disbursement_frequency, DisbursementFrequency::Daily);
    assert_eq!(m.minimum_monthly_fee, 1250);
}

#[test]
fn cadence_is_read_in_any_case() {
    let r = row(&[ID, "acme", "a@b.c", "2024-01-01", "weekly", "1"]);
    assert_eq!(parse_merchant_record(&r).unwrap().disbursement_frequency, DisbursementFrequency::Weekly);
    assert_eq!(DisbursementFrequency::from_token_any_case("Daily"), Some(DisbursementFrequency::Daily));
    assert_eq!(DisbursementFrequency::from_token("daily"), None);
    assert_eq!(DisbursementFrequency::from_token("WEEKLY"), Some(DisbursementFrequency::Weekly));
    assert_eq!(DisbursementFrequency::Weekly.to_token(), "WEEKLY");
    assert_eq!(DisbursementFrequency::Daily.to_token(), "DAILY");
}

#[test]
fn unknown_cadence_is_rejected() {
    let r = row(&[ID, "acme", "a@b.c", "2024-01-01", "MONTHLY", "1"]);
    assert_eq!(parse_merchant_record(&r), Err(ValidationError::UnknownFrequency));
}

#[test]
fn short_row_is_rejected() {
    let r = row(&[ID, "acme", "a@b.c", "2024-01-01", "DAILY"]);
    assert_eq!(parse_merchant_record(&r), Err(ValidationError::MissingField));
}

#[test]
fn malformed_id_is_rejected() {
    let r = row(&["u1", "acme", "a@b.c", "2024-01-01", "DAILY", "1"]);
    assert_eq!(parse_merchant_record(&r), Err(ValidationError::InvalidId));
}

#[test]
fn malformed_date_is_rejected() {
    let r = row(&[ID, "acme", "a@b.c", "01/01/2024", "DAILY", "1"]);
    assert_eq!(parse_merchant_record(&r), Err(ValidationError::InvalidDate));
    let r = row(&[ID, "acme", "a@b.c", "2024-02-30", "DAILY", "1"]);
    assert_eq!(parse_merchant_record(&r), Err(ValidationError::InvalidDate));
}

#[test]
fn malformed_fee_is_rejected() {
    let r = row(&[ID, "acme", "a@b.c", "2024-01-01", "DAILY", "12,50"]);
    assert_eq!(parse_merchant_record(&r), Err(ValidationError::InvalidFee));
}

#[test]
fn cadence_is_checked_before_identifier() {
    let r = row(&["u1", "acme", "a@b.c", "bad", "MONTHLY", "x"]);
    assert_eq!(parse_merchant_record(&r), Err(ValidationError::UnknownFrequency));
}

#[test]
fn fee_converts_to_minor_units() {
    assert_eq!(parse_fee_cents("12.50"), Some(1250));
    assert_eq!(parse_fee_cents("0.00"), Some(0));
    assert_eq!(parse_fee_cents("15"), Some(1500));
    assert_eq!(parse_fee_cents("+3"), Some(300));
    assert_eq!(parse_fee_cents("5."), Some(500));
    assert_eq!(parse_fee_cents(".5"), Some(50));
    assert_eq!(parse_fee_cents("-2.25"), Some(-225));
    assert_eq!(parse_fee_cents("007.07"), Some(707));
}

#[test]
fn fee_rounds_half_away_from_zero() {
    assert_eq!(parse_fee_cents("0.125"), Some(13));
    assert_eq!(parse_fee_cents("0.135"), Some(14));
    assert_eq!(parse_fee_cents("1.004"), Some(100));
    assert_eq!(parse_fee_cents("1.0049999"), Some(100));
    assert_eq!(parse_fee_cents("-0.005"), Some(-1));
    assert_eq!(parse_fee_cents("-0.004"), Some(0));
}

#[test]
fn fee_saturates_at_the_range_of_i32() {
    assert_eq!(parse_fee_cents("21474836.47"), Some(i32::MAX));
    assert_eq!(parse_fee_cents("21474836.48"), Some(i32::MAX));
    assert_eq!(parse_fee_cents("99999999999999999999"), Some(i32::MAX));
    assert_eq!(parse_fee_cents("-21474836.48"), Some(i32::MIN));
    assert_eq!(parse_fee_cents("-99999999999999999999.5"), Some(i32::MIN));
}

#[test]
fn fee_rejects_non_decimal_text() {
    for s in ["", ".", "-", "+.", "abc", "1e3", "inf", "NaN", " 1", "1 ", "1.2.3", "--1"] {
        assert_eq!(parse_fee_cents(s), None, "{s}");
    }
}

#[test]
fn texts_compare_by_characters() {
    assert!(same_text("acme", "acme"));
    assert!(!same_text("acme", "acm"));
    assert!(!same_text("acme", "acmf"));
}

#[test]
fn publisher_builder_keeps_the_broker_address() {
    let b = KafkaPublisherBuilder::new("localhost:9092");
    assert_eq!(b.brokers(), "localhost:9092");
}
