//! Events emitted by the ledger: their kind, their level and their
//! key/value attributes, and the construction of transaction-outcome
//! events.

use vstd::prelude::*;

use crate::render::{dec_of, u64_to_dec_string};
use crate::store::AttributeStore;
use crate::tx::{header_hash_of, Tx, TxType};

verus! {

/// Whether an event concerns a whole finalized block or a single
/// transaction within it. Set once at construction, never mutated.
#[derive(Clone, Copy, Debug, PartialEq, Eq, Structural)]
pub enum EventLevel {
    /// The event is about a finalized block.
    Block,
    /// The event is about an individual transaction.
    Tx,
}

/// Why an event exists. The canonical string rendering of a kind is used
/// verbatim as the wire event-type field.
#[derive(Clone, Debug, PartialEq, Eq)]
pub enum EventType {
    /// The transaction was accepted for inclusion in a block.
    Accepted,
    /// The transaction was applied during block finalization.
    Applied,
    /// An IBC effect was applied during block finalization; carries the
    /// sub-type string of the originating IBC event.
    Ibc(String),
    /// A governance proposal was executed.
    Proposal,
}

/// The canonical string rendering of an event kind: stable, and for the
/// IBC kind the sub-type string itself, not prefixed.
pub open spec fn type_string(t: EventType) -> Seq<char> {
    match t {
        EventType::Accepted => "accepted"@,
        EventType::Applied => "applied"@,
        EventType::Ibc(s) => s@,
        EventType::Proposal => "proposal"@,
    }
}

impl EventType {
    /// The canonical string rendering of this kind.
    pub fn canonical_string(&self) -> (r: String)
        ensures
            r@ == type_string(*self),
    {
        match self {
            EventType::Accepted => "accepted".to_owned(),
            EventType::Applied => "applied".to_owned(),
            EventType::Ibc(t) => t.clone(),
            EventType::Proposal => "proposal".to_owned(),
        }
    }
}

/// A custom event, the unit handed to the consensus engine's event sink
/// and reconstructed by subscribers.
pub struct Event {
    /// The kind of event.
    pub event_type: EventType,
    /// Whether the event relates to a block or an individual transaction.
    pub level: EventLevel,
    /// Key-value attributes of the event.
    pub attributes: AttributeStore,
}

impl View for Event {
    type V = Map<Seq<char>, Seq<char>>;

    open spec fn view(&self) -> Map<Seq<char>, Seq<char>> {
        self.attributes@
    }
}

/// The kind a transaction-outcome event gets from a transaction's type
/// discriminant (meaningful for the discriminants `new_tx_event`
/// accepts).
pub open spec fn tx_event_kind(t: TxType) -> EventType {
    match t {
        TxType::Wrapper => EventType::Accepted,
        _ => EventType::Applied,
    }
}

/// The `hash` attribute a transaction-outcome event carries: the header
/// hash itself, except for a decrypted transaction, whose header hash is
/// recomputed under a raw placeholder header so that it reproduces the
/// hash the transaction had when originally submitted encrypted.
pub open spec fn tx_event_hash(t: TxType, data_hash: Seq<u8>) -> Seq<char> {
    match t {
        TxType::Decrypted => header_hash_of(TxType::Raw, data_hash),
        _ => header_hash_of(t, data_hash),
    }
}

impl Event {
    /// A transaction-outcome event, with the transaction's hash and the
    /// finalized block height already filled in and the `log` attribute
    /// left empty. Accepts wrapper, decrypted and protocol transactions
    /// only: any other discriminant is a contract violation at the call
    /// site.
    pub fn new_tx_event(tx: &Tx, height: u64) -> (r: Event)
        requires
            !(tx.header.tx_type is Raw),
        ensures
            r.level is Tx,
            r.event_type == tx_event_kind(tx.header.tx_type),
            r@ == Map::<Seq<char>, Seq<char>>::empty().insert(
                "hash"@,
                tx_event_hash(tx.header.tx_type, tx.header.data_hash@),
            ).insert("height"@, dec_of(height as nat)).insert("log"@, Seq::<char>::empty()),
            r@.contains_key("hash"@) && r@["hash"@].len() == 64,
            r@.contains_key("height"@) && r@["height"@] == dec_of(height as nat),
            r@.contains_key("log"@) && r@["log"@] =~= Seq::<char>::empty(),
    {
        let mut event = match tx.header() {
            TxType::Wrapper => {
                let mut event = Event {
                    event_type: EventType::Accepted,
                    level: EventLevel::Tx,
                    attributes: AttributeStore::new(),
                };
                event.set("hash", tx.header_hash());
                event
            },
            TxType::Decrypted => {
                let mut event = Event {
                    event_type: EventType::Applied,
                    level: EventLevel::Tx,
                    attributes: AttributeStore::new(),
                };
                event.set("hash", tx.clone().update_header(TxType::Raw).header_hash());
                event
            },
            TxType::Protocol => {
                let mut event = Event {
                    event_type: EventType::Applied,
                    level: EventLevel::Tx,
                    attributes: AttributeStore::new(),
                };
                event.set("hash", tx.header_hash());
                event
            },
            TxType::Raw => {
                proof {
                    assert(false);
                }
                vstd::pervasive::unreached()
            },
        };
        event.set("height", u64_to_dec_string(height));
        event.set("log", String::new());
        proof {
            reveal_strlit("hash");
            reveal_strlit("height");
            reveal_strlit("log");
            assert("hash"@.len() == 4);
            assert("height"@.len() == 6);
            assert("log"@.len() == 3);
            assert("hash"@ != "height"@);
            assert("hash"@ != "log"@);
            assert("height"@ != "log"@);
        }
        event
    }

    /// Whether the event's attributes contain the given key.
    pub fn contains_key(&self, key: &str) -> (r: bool)
        ensures
            r == self@.contains_key(key@),
    {
        self.attributes.contains_key(key)
    }

    /// The attribute value under the given key, if it exists; `None`
    /// otherwise.
    pub fn get(&self, key: &str) -> (r: Option<&String>)
        ensures
            match r {
                Some(v) => self@.contains_key(key@) && v@ == self@[key@],
                None => !self@.contains_key(key@),
            },
    {
        self.attributes.get(key)
    }

    /// Write an attribute, inserting the key if it is absent and
    /// overwriting its value if it is present.
    pub fn set(&mut self, key: &str, value: String)
        ensures
            final (self)@ == old(self)@.insert(key@, value@),
            final (self).event_type == old(self).event_type,
            final (self).level == old(self).level,
    {
        self.attributes.set(key, value);
    }

    /// The attribute value under a key that is known to be present.
    /// Reading a key that may be absent must go through `get` or
    /// `contains_key` instead.
    pub fn get_required(&self, key: &str) -> (r: &String)
        requires
            self@.contains_key(key@),
        ensures
            r@ == self@[key@],
    {
        self.attributes.get_required(key)
    }
}

/// Hash continuity across the encrypt/decrypt lifecycle: the `hash`
/// attribute of a decrypted transaction's applied event equals the hash
/// recomputed from the originating wrapper transaction under a raw
/// placeholder header, before decryption.
pub proof fn lemma_hash_continuity(w: Tx, d: Tx)
    requires
        w.header.tx_type is Wrapper,
        d.header.tx_type is Decrypted,
        d.header.data_hash@ == w.header.data_hash@,
    ensures
        tx_event_hash(d.header.tx_type, d.header.data_hash@) == header_hash_of(
            TxType::Raw,
            w.header.data_hash@,
        ),
{
}

} // verus!
