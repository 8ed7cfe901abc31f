use vstd::prelude::*;
use crate::event::{upserted_topic, upserted_topic_name, MerchantEvent, OutboundMessage, Outbox};
use crate::fee::{fee_cents_of, parse_fee_cents};
use crate::model::{
    calendar_date_of, frequency_of_token, parse_calendar_date, parse_uuid, uppercase_of, uuid_of,
    Date, DisbursementFrequency, ValidationError,
};
use crate::store::{keys_of, lemma_upsert_all_keys, lemma_upsert_idempotent, upsert_all, upsert_one, upsert_merchants, StoredRecord, UpsertStore};

verus! {

/// A merchant as the importing service holds it.
#[derive(Clone, Debug, PartialEq, Eq)]
pub struct Merchant {
    pub id: u128,
    pub merchant_reference: String,
    pub email: String,
    pub live_on: Date,
    pub disbursement_frequency: DisbursementFrequency,
    pub minimum_monthly_fee: i32,
}

impl StoredRecord for Merchant {
    open spec fn key(&self) -> Seq<char> {
        self.merchant_reference@
    }

    /// Every field but the reference is replaced by the incoming value.
    open spec fn merged(&self, existing: Self) -> Self {
        *self
    }

    proof fn lemma_merged(&self, existing: Self) {
    }

    fn reference(&self) -> (r: &String) {
        &self.merchant_reference
    }

    fn merge_onto(self, existing: &Self) -> (r: Self) {
        self
    }

    fn duplicate(&self) -> (r: Self) {
        Merchant {
            id: self.id,
            merchant_reference: self.merchant_reference.clone(),
            email: self.email.clone(),
            live_on: self.live_on,
            disbursement_frequency: self.disbursement_frequency,
            minimum_monthly_fee: self.minimum_monthly_fee,
        }
    }
}

/// Where the importing service finds its batch file, database and broker.
#[derive(Clone, Debug)]
pub struct Settings {
    pub csv_path: String,
    pub database_url: String,
    pub kafka_brokers: String,
}

/// One import run, over the batch file at `file_path`.
#[derive(Clone, Debug)]
pub struct ImportCsvJob {
    pub file_path: String,
}

/// Holds the broker address until a publisher is connected.
pub struct KafkaPublisherBuilder {
    brokers: String,
}

impl KafkaPublisherBuilder {
    pub closed spec fn spec_brokers(&self) -> Seq<char> {
        self.brokers@
    }

    /// Never fails: connecting is left to whoever builds the publisher.
    pub fn new(brokers: &str) -> (r: Self)
        ensures
            r.spec_brokers() == brokers@,
    {
        KafkaPublisherBuilder { brokers: String::from_str(brokers) }
    }

    pub fn brokers(&self) -> (r: &String)
        ensures
            r@ == self.spec_brokers(),
    {
        &self.brokers
    }
}

/// The number of fields in a batch row.
pub const ROW_FIELDS: usize = 6;

/// Why a batch row is rejected, checked in this order: too few fields, the
/// cadence (any letter case), the identifier, the date, the fee.
pub open spec fn row_error(f: Seq<String>) -> Option<ValidationError> {
    if f.len() < ROW_FIELDS {
        Some(ValidationError::MissingField)
    } else if frequency_of_token(uppercase_of(f[4]@)) is None {
        Some(ValidationError::UnknownFrequency)
    } else if uuid_of(f[0]@) is None {
        Some(ValidationError::InvalidId)
    } else if calendar_date_of(f[3]@) is None {
        Some(ValidationError::InvalidDate)
    } else if fee_cents_of(f[5]@) is None {
        Some(ValidationError::InvalidFee)
    } else {
        None
    }
}

/// `m` is what a valid row `f` normalises to.
pub open spec fn normalizes_to(f: Seq<String>, m: Merchant) -> bool {
    &&& f.len() >= ROW_FIELDS
    &&& uuid_of(f[0]@) == Some(m.id)
    &&& m.merchant_reference@ == f[1]@
    &&& m.email@ == f[2]@
    &&& calendar_date_of(f[3]@) == Some(m.live_on)
    &&& frequency_of_token(uppercase_of(f[4]@)) == Some(m.disbursement_frequency)
    &&& fee_cents_of(f[5]@) == Some(m.minimum_monthly_fee)
}

/// Turns one batch row (id, reference, email, date, cadence, fee) into a merchant.
pub fn parse_merchant_record(fields: &Vec<String>) -> (r: Result<Merchant, ValidationError>)
    ensures
        r is Ok <==> row_error(fields@) is None,
        r matches Err(e) ==> row_error(fields@) == Some(e),
        r matches Ok(m) ==> normalizes_to(fields@, m),
{
    if fields.len() < ROW_FIELDS {
        return Err(ValidationError::MissingField);
    }
    let frequency = match DisbursementFrequency::from_token_any_case(fields[4].as_str()) {
        Some(f) => f,
        None => return Err(ValidationError::UnknownFrequency),
    };
    let id = match parse_uuid(fields[0].as_str()) {
        Some(u) => u,
        None => return Err(ValidationError::InvalidId),
    };
    let live_on = match parse_calendar_date(fields[3].as_str()) {
        Some(d) => d,
        None => return Err(ValidationError::InvalidDate),
    };
    let fee = match parse_fee_cents(fields[5].as_str()) {
        Some(c) => c,
        None => return Err(ValidationError::InvalidFee),
    };
    Ok(
        Merchant {
            id,
            merchant_reference: fields[1].clone(),
            email: fields[2].clone(),
            live_on,
            disbursement_frequency: frequency,
            minimum_monthly_fee: fee,
        },
    )
}

/// Every row of the batch is valid.
pub open spec fn rows_valid(rows: Seq<Vec<String>>) -> bool {
    forall|i: int| 0 <= i < rows.len() ==> row_error(#[trigger] rows[i]@) is None
}

/// `e` is the error of the first invalid row.
pub open spec fn first_row_error(rows: Seq<Vec<String>>, e: ValidationError) -> bool {
    exists|i: int|
        0 <= i < rows.len() && row_error(#[trigger] rows[i]@) == Some(e) && forall|j: int|
            0 <= j < i ==> row_error(#[trigger] rows[j]@) is None
}

/// Normalises every row of a batch, in order, stopping at the first invalid one.
pub fn normalize_merchant_rows(rows: &Vec<Vec<String>>) -> (r: Result<Vec<Merchant>, ValidationError>)
    ensures
        r is Ok <==> rows_valid(rows@),
        r matches Err(e) ==> first_row_error(rows@, e),
        r matches Ok(ms) ==> ms@.len() == rows@.len() && forall|i: int|
            0 <= i < rows@.len() ==> normalizes_to(#[trigger] rows@[i]@, ms@[i]),
{
    let mut merchants: Vec<Merchant> = Vec::new();
    let mut i: usize = 0;
    while i < rows.len()
        invariant
            i <= rows@.len(),
            merchants@.len() == i,
            forall|j: int| 0 <= j < i ==> row_error(#[trigger] rows@[j]@) is None,
            forall|j: int| 0 <= j < i ==> normalizes_to(#[trigger] rows@[j]@, merchants@[j]),
        decreases rows@.len() - i,
    {
        match parse_merchant_record(&rows[i]) {
            Ok(m) => merchants.push(m),
            Err(e) => {
                assert(row_error(rows@[i as int]@) == Some(e));
                return Err(e);
            },
        }
        i += 1;
    }
    Ok(merchants)
}

/// `e` carries the reference, date, cadence and fee of `m`, and nothing else.
pub open spec fn is_event_of(e: MerchantEvent, m: Merchant) -> bool {
    &&& e.merchant_reference@ == m.merchant_reference@
    &&& e.live_on == m.live_on
    &&& e.disbursement_frequency == m.disbursement_frequency
    &&& e.minimum_monthly_fee == m.minimum_monthly_fee
}

/// `msg` announces `m` on the merchant topic, keyed by its reference.
pub open spec fn is_message_for(msg: OutboundMessage, m: Merchant) -> bool {
    &&& msg.topic@ == upserted_topic()
    &&& msg.key@ == m.merchant_reference@
    &&& is_event_of(msg.event, m)
}

/// The event sent for a merchant: the identifier and contact field stay behind.
pub fn shape_event(m: &Merchant) -> (e: MerchantEvent)
    ensures
        is_event_of(e, *m),
{
    MerchantEvent {
        merchant_reference: m.merchant_reference.clone(),
        live_on: m.live_on,
        disbursement_frequency: m.disbursement_frequency,
        minimum_monthly_fee: m.minimum_monthly_fee,
    }
}

/// The message that announces a merchant.
pub fn message_for(m: &Merchant) -> (msg: OutboundMessage)
    ensures
        is_message_for(msg, *m),
{
    OutboundMessage {
        topic: upserted_topic_name(),
        key: m.merchant_reference.clone(),
        event: shape_event(m),
    }
}

/// Queues one message per merchant, in list order.
pub fn publish_merchants(outbox: &mut Outbox, merchants: &Vec<Merchant>)
    ensures
        final(outbox)@.len() == old(outbox)@.len() + merchants@.len(),
        final(outbox)@.subrange(0, old(outbox)@.len() as int) == old(outbox)@,
        forall|i: int|
            0 <= i < merchants@.len() ==> is_message_for(
                #[trigger] final(outbox)@[old(outbox)@.len() + i],
                merchants@[i],
            ),
{
    let ghost start = outbox@;
    let mut i: usize = 0;
    while i < merchants.len()
        invariant
            i <= merchants@.len(),
            outbox@.len() == start.len() + i,
            outbox@.subrange(0, start.len() as int) == start,
            forall|j: int|
                0 <= j < i ==> is_message_for(#[trigger] outbox@[start.len() + j], merchants@[j]),
        decreases merchants@.len() - i,
    {
        let msg = message_for(&merchants[i]);
        let ghost prev = outbox@;
        outbox.enqueue(msg);
        assert(outbox@.subrange(0, start.len() as int) =~= prev.subrange(0, start.len() as int));
        assert forall|j: int| 0 <= j <= i implies is_message_for(
            #[trigger] outbox@[start.len() + j],
            merchants@[j],
        ) by {
            if j < i {
                assert(outbox@[start.len() + j] == prev[start.len() + j]);
            }
        }
        i += 1;
    }
}

/// One import run over a batch: all rows are normalised first, and the first
/// invalid row stops the run before anything is written or queued. Then the
/// whole list is upserted, and one message per merchant is queued in list
/// order. Queued messages are sent by a dispatcher that drains the outbox; a
/// crash between the write and the sending leaves the store ahead of the
/// event stream, never the other way round.
pub fn import_merchants_csv_handler(
    rows: &Vec<Vec<String>>,
    store: &mut UpsertStore<Merchant>,
    outbox: &mut Outbox,
) -> (r: Result<Vec<Merchant>, ValidationError>)
    requires
        old(store).wf(),
    ensures
        final(store).wf(),
        r is Ok <==> rows_valid(rows@),
        r matches Err(e) ==> first_row_error(rows@, e) && final(store)@ == old(store)@
            && final(outbox)@ == old(outbox)@,
        r matches Ok(ms) ==> {
            &&& ms@.len() == rows@.len()
            &&& forall|i: int| 0 <= i < rows@.len() ==> normalizes_to(#[trigger] rows@[i]@, ms@[i])
            &&& final(store)@ == upsert_all(old(store)@, ms@)
            &&& final(outbox)@.len() == old(outbox)@.len() + ms@.len()
            &&& final(outbox)@.subrange(0, old(outbox)@.len() as int) == old(outbox)@
            &&& forall|i: int|
                0 <= i < ms@.len() ==> is_message_for(
                    #[trigger] final(outbox)@[old(outbox)@.len() + i],
                    ms@[i],
                )
        },
{
    let merchants = match normalize_merchant_rows(rows) {
        Ok(ms) => ms,
        Err(e) => return Err(e),
    };
    upsert_merchants(store, &merchants);
    publish_merchants(outbox, &merchants);
    Ok(merchants)
}

/// Upserting a batch leaves, under each reference, the last record of the batch
/// that carries it.
pub proof fn lemma_last_record_wins(t: Map<Seq<char>, Merchant>, ms: Seq<Merchant>, i: int)
    requires
        0 <= i < ms.len(),
        forall|j: int| i < j < ms.len() ==> (#[trigger] ms[j]).key() != ms[i].key(),
    ensures
        upsert_all(t, ms).contains_key(ms[i].key()),
        upsert_all(t, ms)[ms[i].key()] == ms[i],
    decreases ms.len(),
{
    let p = ms.drop_last();
    if i < ms.len() - 1 {
        assert forall|j: int| i < j < p.len() implies (#[trigger] p[j]).key() != p[i].key() by {
            assert(p[j] == ms[j]);
        }
        lemma_last_record_wins(t, p, i);
        assert(ms.last().key() != ms[i].key());
    }
}

/// A valid batch imported into an empty store leaves exactly one row per
/// distinct reference of the batch, and that row is the last record of the
/// batch with the reference; one message per record is queued, in input order
/// (see the contract of the pipeline).
pub proof fn lemma_import_one_row_per_reference(ms: Seq<Merchant>)
    ensures
        upsert_all(Map::<Seq<char>, Merchant>::empty(), ms).dom() == keys_of(ms),
        forall|i: int|
            0 <= i < ms.len() && (forall|j: int| i < j < ms.len() ==> (#[trigger] ms[j]).key() != ms[i].key())
                ==> upsert_all(Map::<Seq<char>, Merchant>::empty(), ms)[(#[trigger] ms[i]).key()] == ms[i],
{
    lemma_upsert_all_keys(Map::<Seq<char>, Merchant>::empty(), ms);
    assert(Map::<Seq<char>, Merchant>::empty().dom().union(keys_of(ms)) =~= keys_of(ms));
    assert forall|i: int|
        0 <= i < ms.len() && (forall|j: int| i < j < ms.len() ==> (#[trigger] ms[j]).key() != ms[i].key())
            implies upsert_all(Map::<Seq<char>, Merchant>::empty(), ms)[(#[trigger] ms[i]).key()] == ms[i] by {
        lemma_last_record_wins(Map::<Seq<char>, Merchant>::empty(), ms, i);
    }
}

/// A row whose cadence token is neither `DAILY` nor `WEEKLY` in any letter case
/// makes the batch invalid, so the pipeline fails with the store and the outbox
/// untouched.
pub proof fn lemma_invalid_cadence_rejects_batch(rows: Seq<Vec<String>>, i: int)
    requires
        0 <= i < rows.len(),
        rows[i]@.len() >= ROW_FIELDS,
        frequency_of_token(uppercase_of(rows[i]@[4]@)) is None,
    ensures
        !rows_valid(rows),
{
    assert(row_error(rows[i]@) == Some(ValidationError::UnknownFrequency));
}

/// Upserting a merchant onto an existing row leaves exactly the incoming record
/// under its reference, and no other row changes; upserting it again changes
/// nothing more.
pub proof fn lemma_import_overwrites(t: Map<Seq<char>, Merchant>, m: Merchant)
    ensures
        upsert_one(t, m)[m.key()] == m,
        upsert_one(t, m).dom() == t.dom().insert(m.key()),
        forall|k: Seq<char>| k != m.key() && t.contains_key(k) ==> upsert_one(t, m)[k] == t[k],
        upsert_one(upsert_one(t, m), m) == upsert_one(t, m),
{
    lemma_upsert_idempotent(t, m);
}

} // verus!
