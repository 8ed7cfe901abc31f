use merchant_sync::event::Outbox;
use merchant_sync::importer::{import_merchants_csv_handler, parse_merchant_record, Merchant};
use merchant_sync::model::{Date, DisbursementFrequency};
use merchant_sync::store::{upsert_merchants, UpsertStore};

fn batch() -> Vec<Vec<String>> {
    [
        ["86312006-4d7e-45c4-9c28-788f4aa68a62", "padberg_group", "info@padberg-group.com", "2023-02-01", "DAILY", "0.0"],
        ["d1649242-a612-46ba-82d8-225542bb9576", "deckow_gibson", "info@deckow-gibson.com", "2022-12-14", "daily", "30.0"],
        ["a616488f-c8b2-45dd-b29f-364d12a20238", "romaguera_and_sons", "info@romaguera-and-sons.com", "2022-12-10", "DAILY", "0.0"],
        ["9ad4dca5-0bb2-4be9-8b31-7e2bcbd0f8f6", "rosenbaum_parisian", "info@rosenbaum-parisian.com", "2022-11-09", "WEEKLY", "15.0"],
    ]
    .iter()
    .map(|r| r.iter().map(|s| s.to_string()).collect())
    .collect()
}

#[test]
fn it_imports_csv_and_insert_merchants_and_publish_event() {
    let mut store: UpsertStore<Merchant> = UpsertStore::new();
    let mut outbox = Outbox::new();
    let result = import_merchants_csv_handler(&batch(), &mut store, &mut outbox);

    assert_eq!(store.len(), 4);
    assert!(result.is_ok());
    assert_eq!(outbox.len(), 4);
    let mut any = false;
    for i in 0..outbox.len() {
        any |= outbox.message(i).topic == "merchant_upserted";
    }
    assert!(any);
}

#[test]
fn it_imports_csv_and_upsert_existing_merchants_and_publish_event() {
    let mut store: UpsertStore<Merchant> = UpsertStore::new();
    let mut outbox = Outbox::new();

    let existing = parse_merchant_record(
        &["86312006-4d7e-45c4-9c28-788f4aa68a62", "padberg_group", "old_email@example.com", "2022-01-01", "DAILY", "0.10"]
            .iter()
            .map(|s| s.to_string())
            .collect(),
    )
    .unwrap();
    upsert_merchants(&mut store, &vec![existing]);

    let before = store.get(&"padberg_group".to_string()).unwrap();
    assert_eq!(before.email, "old_email@example.com");
    assert_eq!(before.live_on, Date { year: 2022, month: 1, day: 1 });
    assert_eq!(before.disbursement_frequency.to_token(), "DAILY");
    assert_eq!(before.minimum_monthly_fee, 10);

    let result = import_merchants_csv_handler(&batch(), &mut store, &mut outbox);

    assert_eq!(store.len(), 4);
    let updated = store.get(&"padberg_group".to_string()).unwrap();
    assert_eq!(updated.email, "info@padberg-group.com");
    assert_eq!(updated.live_on, Date { year: 2023, month: 2, day: 1 });
    assert_eq!(updated.disbursement_frequency, DisbursementFrequency::Daily);
    assert_eq!(updated.minimum_monthly_fee, 0);

    assert!(result.is_ok());
    assert_eq!(outbox.len(), 4);
    assert_eq!(outbox.message(0).topic, "merchant_upserted");
}
