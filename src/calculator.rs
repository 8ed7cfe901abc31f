use vstd::prelude::*;
use crate::event::MerchantEvent;
use crate::importer::is_event_of;
use crate::importer::Merchant as ImportedMerchant;
use crate::model::{
    calendar_date_of, fresh_uuid, frequency_of_token, lemma_token_round_trip, parse_calendar_date,
    Date, DisbursementFrequency, ValidationError,
};
use crate::store::{upsert_one, StoredRecord, UpsertStore};

verus! {

/// A merchant as the calculating service holds it: its own identifier, no
/// contact field.
#[derive(Clone, Debug, PartialEq, Eq)]
pub struct Merchant {
    pub id: u128,
    pub merchant_reference: String,
    pub live_on: Date,
    pub disbursement_frequency: DisbursementFrequency,
    pub minimum_monthly_fee: i32,
}

impl StoredRecord for Merchant {
    open spec fn key(&self) -> Seq<char> {
        self.merchant_reference@
    }

    /// The row keeps its local identifier; every other field is replaced.
    open spec fn merged(&self, existing: Self) -> Self {
        Merchant {
            id: existing.id,
            merchant_reference: self.merchant_reference,
            live_on: self.live_on,
            disbursement_frequency: self.disbursement_frequency,
            minimum_monthly_fee: self.minimum_monthly_fee,
        }
    }

    proof fn lemma_merged(&self, existing: Self) {
    }

    fn reference(&self) -> (r: &String) {
        &self.merchant_reference
    }

    fn merge_onto(self, existing: &Self) -> (r: Self) {
        Merchant {
            id: existing.id,
            merchant_reference: self.merchant_reference,
            live_on: self.live_on,
            disbursement_frequency: self.disbursement_frequency,
            minimum_monthly_fee: self.minimum_monthly_fee,
        }
    }

    fn duplicate(&self) -> (r: Self) {
        Merchant {
            id: self.id,
            merchant_reference: self.merchant_reference.clone(),
            live_on: self.live_on,
            disbursement_frequency: self.disbursement_frequency,
            minimum_monthly_fee: self.minimum_monthly_fee,
        }
    }
}

/// Where the calculating service finds its database and broker.
#[derive(Clone, Debug)]
pub struct Settings {
    pub database_url: String,
    pub kafka_brokers: String,
}

/// An inbound event as read from the wire, each field present only if it had
/// the expected JSON kind (a string, or an integer for the fee).
#[derive(Clone, Debug, PartialEq, Eq)]
pub struct EventPayload {
    pub merchant_reference: Option<String>,
    pub live_on: Option<String>,
    pub disbursement_frequency: Option<String>,
    pub minimum_monthly_fee: Option<i64>,
}

pub open spec fn text_or_empty(o: Option<String>) -> Seq<char> {
    match o {
        Some(s) => s@,
        None => Seq::empty(),
    }
}

pub open spec fn payload_frequency(p: EventPayload) -> Option<DisbursementFrequency> {
    match p.disbursement_frequency {
        Some(s) => frequency_of_token(s@),
        None => None,
    }
}

/// The fee of a payload: zero when absent.
pub open spec fn payload_fee(p: EventPayload) -> int {
    match p.minimum_monthly_fee {
        Some(v) => v as int,
        None => 0,
    }
}

/// Why a payload is rejected, checked in this order: the date, the cadence
/// (which must be exactly `DAILY` or `WEEKLY`), a fee outside the range of `i32`.
/// A missing reference or fee is no error: they default to empty and zero.
pub open spec fn payload_error(p: EventPayload) -> Option<ValidationError> {
    if calendar_date_of(text_or_empty(p.live_on)) is None {
        Some(ValidationError::InvalidDate)
    } else if payload_frequency(p) is None {
        Some(ValidationError::UnknownFrequency)
    } else if !(i32::MIN <= payload_fee(p) <= i32::MAX) {
        Some(ValidationError::InvalidFee)
    } else {
        None
    }
}

/// `e` is what the valid payload `p` decodes to.
pub open spec fn decodes_to(p: EventPayload, e: MerchantEvent) -> bool {
    &&& e.merchant_reference@ == text_or_empty(p.merchant_reference)
    &&& calendar_date_of(text_or_empty(p.live_on)) == Some(e.live_on)
    &&& payload_frequency(p) == Some(e.disbursement_frequency)
    &&& e.minimum_monthly_fee as int == payload_fee(p)
}

/// `r` is the receiving side's record of `e`, under the identifier `id`.
pub open spec fn is_record_of(r: Merchant, e: MerchantEvent, id: u128) -> bool {
    &&& r.id == id
    &&& r.merchant_reference@ == e.merchant_reference@
    &&& r.live_on == e.live_on
    &&& r.disbursement_frequency == e.disbursement_frequency
    &&& r.minimum_monthly_fee == e.minimum_monthly_fee
}

/// Reads an inbound payload into an event.
pub fn event_from_payload(p: &EventPayload) -> (r: Result<MerchantEvent, ValidationError>)
    ensures
        r is Ok <==> payload_error(*p) is None,
        r matches Err(e) ==> payload_error(*p) == Some(e),
        r matches Ok(e) ==> decodes_to(*p, e),
{
    proof {
        reveal_strlit("");
    }
    let live_on = match &p.live_on {
        Some(s) => parse_calendar_date(s.as_str()),
        None => parse_calendar_date(""),
    };
    assert(""@ =~= Seq::<char>::empty());
    let live_on = match live_on {
        Some(d) => d,
        None => return Err(ValidationError::InvalidDate),
    };
    let frequency = match &p.disbursement_frequency {
        Some(s) => DisbursementFrequency::from_token(s.as_str()),
        None => None,
    };
    let frequency = match frequency {
        Some(f) => f,
        None => return Err(ValidationError::UnknownFrequency),
    };
    let fee: i32 = match p.minimum_monthly_fee {
        Some(v) => {
            if v < i32::MIN as i64 || v > i32::MAX as i64 {
                return Err(ValidationError::InvalidFee);
            }
            v as i32
        },
        None => 0,
    };
    let reference = match &p.merchant_reference {
        Some(s) => s.clone(),
        None => String::new(),
    };
    Ok(
        MerchantEvent {
            merchant_reference: reference,
            live_on,
            disbursement_frequency: frequency,
            minimum_monthly_fee: fee,
        },
    )
}

/// The receiving side's record of an event, under a locally chosen identifier.
pub fn record_from_event(e: MerchantEvent, id: u128) -> (r: Merchant)
    ensures
        is_record_of(r, e, id),
{
    Merchant {
        id,
        merchant_reference: e.merchant_reference,
        live_on: e.live_on,
        disbursement_frequency: e.disbursement_frequency,
        minimum_monthly_fee: e.minimum_monthly_fee,
    }
}

/// Mirrors inbound merchant events into the receiving side's store.
pub struct MerchantUpsertedHandler {
    store: UpsertStore<Merchant>,
}

impl MerchantUpsertedHandler {
    pub closed spec fn spec_store(&self) -> UpsertStore<Merchant> {
        self.store
    }

    pub fn new(store: UpsertStore<Merchant>) -> (r: Self)
        ensures
            r.spec_store() == store,
    {
        MerchantUpsertedHandler { store }
    }

    pub fn store(&self) -> (r: &UpsertStore<Merchant>)
        ensures
            *r == self.spec_store(),
    {
        &self.store
    }

    /// Handles one payload under the given identifier: a valid payload is
    /// upserted, an invalid one changes nothing.
    pub fn handle_with_id(&mut self, payload: &EventPayload, id: u128) -> (r: Result<(), ValidationError>)
        requires
            old(self).spec_store().wf(),
        ensures
            final(self).spec_store().wf(),
            r is Ok <==> payload_error(*payload) is None,
            r matches Err(e) ==> payload_error(*payload) == Some(e) && final(self).spec_store()@
                == old(self).spec_store()@,
            r is Ok ==> exists|e: MerchantEvent, m: Merchant|
                decodes_to(*payload, e) && is_record_of(m, e, id) && final(self).spec_store()@
                    == upsert_one(old(self).spec_store()@, m),
    {
        let event = match event_from_payload(payload) {
            Ok(e) => e,
            Err(e) => return Err(e),
        };
        let ghost e0 = event;
        let record = record_from_event(event, id);
        let ghost m0 = record;
        self.store.upsert(record);
        assert(decodes_to(*payload, e0) && is_record_of(m0, e0, id));
        Ok(())
    }

    /// Handles one payload under a fresh random identifier (kept only where the
    /// reference is new to the store).
    pub fn handle(&mut self, payload: &EventPayload) -> (r: Result<(), ValidationError>)
        requires
            old(self).spec_store().wf(),
        ensures
            final(self).spec_store().wf(),
            r is Ok <==> payload_error(*payload) is None,
            r matches Err(e) ==> payload_error(*payload) == Some(e) && final(self).spec_store()@
                == old(self).spec_store()@,
            r is Ok ==> exists|e: MerchantEvent, m: Merchant|
                decodes_to(*payload, e) && is_record_of(m, e, m.id) && final(self).spec_store()@
                    == upsert_one(old(self).spec_store()@, m),
    {
        let id = fresh_uuid();
        self.handle_with_id(payload, id)
    }
}

/// Builds handlers.
pub struct MerchantUpsertedHandlerBuilder;

impl MerchantUpsertedHandlerBuilder {
    pub fn build(self, store: UpsertStore<Merchant>) -> (r: MerchantUpsertedHandler)
        ensures
            r.spec_store() == store,
    {
        MerchantUpsertedHandler::new(store)
    }
}

/// What one poll of the broker brought.
#[derive(Clone, Copy, Debug, PartialEq, Eq, Structural)]
pub enum PollEvent {
    /// The stream has ended.
    Closed,
    /// The broker reported an error.
    BrokerError,
    /// A message without a body.
    EmptyMessage,
    /// A body that is not a JSON object of the expected shape.
    Undecodable,
    /// A body that was read into a payload.
    Decoded,
}

/// What the consumer does next.
#[derive(Clone, Copy, Debug, PartialEq, Eq, Structural)]
pub enum LoopAction {
    /// Leave the loop.
    Stop,
    /// Poll again.
    Poll,
    /// Hand the payload to the handler, await it, then poll again.
    Dispatch,
}

/// The consumer's decision after a poll: only the end of the stream stops it;
/// broker errors and undecodable or empty messages are logged and skipped.
pub fn next_action(ev: PollEvent) -> (r: LoopAction)
    ensures
        r == (match ev {
            PollEvent::Closed => LoopAction::Stop,
            PollEvent::Decoded => LoopAction::Dispatch,
            _ => LoopAction::Poll,
        }),
{
    match ev {
        PollEvent::Closed => LoopAction::Stop,
        PollEvent::Decoded => LoopAction::Dispatch,
        _ => LoopAction::Poll,
    }
}

/// The consumer's decision after the handler returned: a failure is logged and
/// the message counts as consumed all the same.
pub fn after_dispatch(outcome: &Result<(), ValidationError>) -> (r: LoopAction)
    ensures
        r == LoopAction::Poll,
{
    LoopAction::Poll
}

/// The wire payload that carries an event of the importing side: every field
/// present, the cadence as its token, the date as text that reads back as it.
pub open spec fn is_payload_of(p: EventPayload, e: MerchantEvent) -> bool {
    &&& p.merchant_reference matches Some(s) && s@ == e.merchant_reference@
    &&& p.live_on matches Some(t) && calendar_date_of(t@) == Some(e.live_on)
    &&& p.disbursement_frequency matches Some(t) && t@ == e.disbursement_frequency.token()
    &&& p.minimum_monthly_fee == Some(e.minimum_monthly_fee as i64)
}

/// A merchant shaped into an event, carried on the wire and handled on the
/// receiving side, arrives with its reference, date, cadence and fee unchanged,
/// under the identifier that the receiving side chose.
pub proof fn lemma_shaping_round_trip(
    m: ImportedMerchant,
    e: MerchantEvent,
    p: EventPayload,
    id: u128,
)
    requires
        is_event_of(e, m),
        is_payload_of(p, e),
    ensures
        payload_error(p) is None,
        forall|d: MerchantEvent, r: Merchant|
            decodes_to(p, d) && is_record_of(r, d, id) ==> {
                &&& r.merchant_reference@ == m.merchant_reference@
                &&& r.live_on == m.live_on
                &&& r.disbursement_frequency == m.disbursement_frequency
                &&& r.minimum_monthly_fee == m.minimum_monthly_fee
                &&& r.id == id
            },
{
    lemma_token_round_trip(e.disbursement_frequency);
}

/// Handling the same valid payload twice under the same identifier leaves the
/// store as handling it once.
pub proof fn lemma_handle_idempotent(t: Map<Seq<char>, Merchant>, m: Merchant)
    ensures
        upsert_one(upsert_one(t, m), m) == upsert_one(t, m),
{
    crate::store::lemma_upsert_idempotent(t, m);
}

/// Upserting onto an existing row replaces the date, cadence and fee with the
/// incoming ones and keeps the row's own identifier.
pub proof fn lemma_handle_overwrites(t: Map<Seq<char>, Merchant>, m: Merchant)
    requires
        t.contains_key(m.key()),
    ensures
        upsert_one(t, m)[m.key()].merchant_reference@ == m.merchant_reference@,
        upsert_one(t, m)[m.key()].live_on == m.live_on,
        upsert_one(t, m)[m.key()].disbursement_frequency == m.disbursement_frequency,
        upsert_one(t, m)[m.key()].minimum_monthly_fee == m.minimum_monthly_fee,
        upsert_one(t, m)[m.key()].id == t[m.key()].id,
        upsert_one(t, m).dom() == t.dom(),
{
    assert(upsert_one(t, m).dom() =~= t.dom());
}

} // verus!
