//! Building events and payloads, and appending to the event log.
use vstd::prelude::*;
use crate::model::{Event, EventView, Ledger, LedgerView, PayloadEntry, PayloadValue, PayloadValueView, texts};
use crate::clock::{new_ulid, now_nanos, ulid_shaped, MAX_INSTANT_NS};
use crate::text::owned;

verus! {

/// The event that a mutation appends.
pub open spec fn event_of(
    id: Seq<char>,
    repo_id: Seq<char>,
    at: i128,
    actor: Seq<char>,
    kind: Seq<char>,
    entity_type: Seq<char>,
    entity_id: Seq<char>,
    payload: Seq<(Seq<char>, PayloadValueView)>,
) -> EventView {
    EventView {
        id,
        repo_id,
        created_at: at,
        actor,
        kind,
        entity_type,
        entity_id,
        correlation_id: None,
        payload,
    }
}

/// `l` with `e` appended to its event log.
pub open spec fn with_event(l: LedgerView, e: EventView) -> LedgerView {
    LedgerView { events: l.events.push(e), ..l }
}

/// Builds an event without a correlation id.
pub fn new_event(
    id: String,
    repo_id: &str,
    at: i128,
    actor: &str,
    kind: &str,
    entity_type: &str,
    entity_id: &str,
    payload: Vec<PayloadEntry>,
) -> (e: Event)
    ensures
        e@ == event_of(
            id@,
            repo_id@,
            at,
            actor@,
            kind@,
            entity_type@,
            entity_id@,
            payload@.map_values(|p: PayloadEntry| p@),
        ),
{
    Event {
        id,
        repo_id: owned(repo_id),
        created_at: at,
        actor: owned(actor),
        kind: owned(kind),
        entity_type: owned(entity_type),
        entity_id: owned(entity_id),
        correlation_id: None,
        payload,
    }
}

/// A payload field holding a text.
pub fn text_entry(key: &str, value: &str) -> (p: PayloadEntry)
    ensures
        p@ == (key@, PayloadValueView::Text(value@)),
{
    PayloadEntry { key: owned(key), value: PayloadValue::Text(owned(value)) }
}

/// A payload field holding an instant.
pub fn instant_entry(key: &str, value: i128) -> (p: PayloadEntry)
    ensures
        p@ == (key@, PayloadValueView::Instant(value)),
{
    PayloadEntry { key: owned(key), value: PayloadValue::Instant(value) }
}

/// A payload field holding a list of texts.
pub fn list_entry(key: &str, value: Vec<String>) -> (p: PayloadEntry)
    ensures
        p@ == (key@, PayloadValueView::List(texts(value@))),
{
    PayloadEntry { key: owned(key), value: PayloadValue::List(value) }
}

/// The values that a mutation draws from the outside world: the current
/// instant, an identifier for the entity it creates and one for its event.
#[derive(Debug)]
pub struct Fresh {
    pub now: i128,
    pub entity_id: String,
    pub event_id: String,
}

/// Reads the clock and draws two fresh ULIDs.
pub fn fresh() -> (f: Fresh)
    ensures
        0 <= f.now <= MAX_INSTANT_NS,
        ulid_shaped(f.entity_id@),
        ulid_shaped(f.event_id@),
{
    let now = now_nanos();
    let entity_id = new_ulid();
    let event_id = new_ulid();
    Fresh { now, entity_id, event_id }
}

impl Ledger {
    /// Appends an event to the log; the materialised tables do not change.
    pub fn append_event(&mut self, event: Event)
        ensures
            final(self)@ == with_event(old(self)@, event@),
    {
        self.events.push(event);
        assert(self@.events =~= old(self)@.events.push(event@));
    }
}

} // verus!
