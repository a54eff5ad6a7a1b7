//! Conversions between domain effect records, events and the consensus
//! engine's wire event representation.

use vstd::prelude::*;

use crate::event::{type_string, Event, EventLevel, EventType};
use crate::store::AttributeStore;

verus! {

/// One attribute of a wire event; `index` signals to the consensus
/// engine's attribute index that the attribute should be queryable by
/// subscribers.
pub struct EventAttribute {
    /// Attribute name.
    pub key: String,
    /// Attribute value.
    pub value: String,
    /// Whether the attribute is indexed for subscriber queries.
    pub index: bool,
}

/// The consensus engine's generic wire event: a type string together with
/// a list of key/value/index attribute triples.
pub struct WireEvent {
    /// The wire event-type field.
    pub event_type: String,
    /// The attribute triples.
    pub attributes: Vec<EventAttribute>,
}

/// An inter-blockchain-communication effect record as the IBC module
/// hands it over: the effect's own type string and attribute map.
pub struct IbcEvent {
    /// The effect's own type string.
    pub event_type: String,
    /// The effect's own attributes.
    pub attributes: AttributeStore,
}

/// A governance proposal-execution effect record.
pub struct ProposalEvent {
    /// The effect's own attributes.
    pub attributes: AttributeStore,
}

impl From<IbcEvent> for Event {
    /// The event of an IBC effect: kind `Ibc` carrying the effect's own
    /// type string, transaction level, and the effect's attribute map
    /// moved in verbatim.
    fn from(ibc_event: IbcEvent) -> (r: Event) {
        Event {
            event_type: EventType::Ibc(ibc_event.event_type),
            level: EventLevel::Tx,
            attributes: ibc_event.attributes,
        }
    }
}

impl vstd::std_specs::convert::FromSpecImpl<IbcEvent> for Event {
    open spec fn obeys_from_spec() -> bool {
        true
    }

    open spec fn from_spec(e: IbcEvent) -> Event {
        Event {
            event_type: EventType::Ibc(e.event_type),
            level: EventLevel::Tx,
            attributes: e.attributes,
        }
    }
}

impl From<ProposalEvent> for Event {
    /// The event of an executed proposal: kind `Proposal`, block level,
    /// and the effect's attribute map moved in verbatim.
    fn from(proposal_event: ProposalEvent) -> (r: Event) {
        Event {
            event_type: EventType::Proposal,
            level: EventLevel::Block,
            attributes: proposal_event.attributes,
        }
    }
}

impl vstd::std_specs::convert::FromSpecImpl<ProposalEvent> for Event {
    open spec fn obeys_from_spec() -> bool {
        true
    }

    open spec fn from_spec(e: ProposalEvent) -> Event {
        Event {
            event_type: EventType::Proposal,
            level: EventLevel::Block,
            attributes: e.attributes,
        }
    }
}

/// An IBC effect's event preserves the effect's payload exactly: its
/// kind carries the effect's own sub-type string, its level is the
/// transaction level, and its attribute map is the effect's own,
/// unchanged.
pub proof fn lemma_ibc_event_preserves_payload(e: IbcEvent)
    ensures
        ({
            let r = <Event as vstd::std_specs::convert::FromSpec<IbcEvent>>::from_spec(e);
            &&& r.event_type == EventType::Ibc(e.event_type)
            &&& r.level is Tx
            &&& r@ == e.attributes@
        }),
{
}

impl Event {
    /// The wire form of this event: the canonical type string, and one
    /// (key, value, indexed) triple per attribute, every triple indexed,
    /// in the store's entry order, each key appearing once. Consumes the
    /// event.
    pub fn into_wire(self) -> (w: WireEvent)
        ensures
            w.event_type@ == type_string(self.event_type),
            w.attributes@.len() == self.attributes.entries().len(),
            forall|i: int|
                #![trigger w.attributes@[i]]
                0 <= i < w.attributes@.len() ==> {
                    &&& w.attributes@[i].key@ == self.attributes.entries()[i].0@
                    &&& w.attributes@[i].value@ == self.attributes.entries()[i].1@
                    &&& w.attributes@[i].index == true
                },
    {
        let event_type = self.event_type.canonical_string();
        let mut attrs: Vec<EventAttribute> = Vec::new();
        let n: usize = self.attributes.len();
        let mut i: usize = 0;
        while i < n
            invariant
                n == self.attributes.entries().len(),
                i <= n,
                attrs@.len() == i,
                forall|j: int|
                    #![trigger attrs@[j]]
                    0 <= j < i ==> {
                        &&& attrs@[j].key@ == self.attributes.entries()[j].0@
                        &&& attrs@[j].value@ == self.attributes.entries()[j].1@
                        &&& attrs@[j].index == true
                    },
            decreases n - i,
        {
            let key = self.attributes.key_at(i).clone();
            let value = self.attributes.value_at(i).clone();
            attrs.push(EventAttribute { key, value, index: true });
            i = i + 1;
        }
        WireEvent { event_type, attributes: attrs }
    }
}

} // verus!
