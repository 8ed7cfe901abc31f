use vstd::prelude::*;
use crate::model::{Date, DisbursementFrequency};

verus! {

/// The wire form of a synchronised merchant: no identifier, no contact field.
#[derive(Clone, Debug, PartialEq, Eq)]
pub struct MerchantEvent {
    pub merchant_reference: String,
    pub live_on: Date,
    pub disbursement_frequency: DisbursementFrequency,
    pub minimum_monthly_fee: i32,
}

/// One event to send: the topic, the partition key and the payload.
#[derive(Clone, Debug, PartialEq, Eq)]
pub struct OutboundMessage {
    pub topic: String,
    pub key: String,
    pub event: MerchantEvent,
}

/// The topic on which merchant changes are announced.
pub open spec fn upserted_topic() -> Seq<char> {
    "merchant_upserted"@
}

pub fn upserted_topic_name() -> (r: String)
    ensures
        r@ == upserted_topic(),
{
    String::from_str("merchant_upserted")
}

/// Messages waiting to be sent, oldest first.
pub struct Outbox {
    pending: Vec<OutboundMessage>,
}

impl View for Outbox {
    type V = Seq<OutboundMessage>;

    closed spec fn view(&self) -> Seq<OutboundMessage> {
        self.pending@
    }
}

impl Outbox {
    pub fn new() -> (r: Self)
        ensures
            r@ == Seq::<OutboundMessage>::empty(),
    {
        Outbox { pending: Vec::new() }
    }

    pub fn len(&self) -> (r: usize)
        ensures
            r == self@.len(),
    {
        self.pending.len()
    }

    /// The oldest message not yet acknowledged.
    pub fn next_pending(&self) -> (r: Option<&OutboundMessage>)
        ensures
            r == if self@.len() > 0 {
                Some(&self@[0])
            } else {
                None
            },
    {
        if self.pending.len() > 0 {
            Some(&self.pending[0])
        } else {
            None
        }
    }

    /// The message at position `i`, oldest first.
    pub fn message(&self, i: usize) -> (r: &OutboundMessage)
        requires
            i < self@.len(),
        ensures
            *r == self@[i as int],
    {
        &self.pending[i]
    }

    /// Drops the oldest message, once it has been delivered.
    pub fn acknowledge(&mut self)
        ensures
            old(self)@.len() > 0 ==> final(self)@ == old(self)@.drop_first(),
            old(self)@.len() == 0 ==> final(self)@ == old(self)@,
    {
        if self.pending.len() > 0 {
            self.pending.remove(0);
            assert(self.pending@ =~= old(self)@.drop_first());
        }
    }

    pub fn enqueue(&mut self, msg: OutboundMessage)
        ensures
            final(self)@ == old(self)@.push(msg),
    {
        self.pending.push(msg);
    }
}

} // verus!
