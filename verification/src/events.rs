//! Querying the event log, and the event that opens a workspace.
use vstd::prelude::*;
use crate::clock::{format_instant, instant_ok, instant_text};
use crate::cli::{opt_string, EventsCommand};
use crate::error::{ErrorView, LatchError};
use crate::reply::{answer, map_ok, Reply, ReplyView};
use crate::journal::{event_of, new_event, with_event, Fresh};
use crate::model::{Event, EventView, Ledger, LedgerView, PayloadEntry};
use crate::ranking::{first_n, pick, ranking};
use crate::rows::{ranked_rows, stamp_keys, views};
use crate::text::{join3, same_text, text_at_least, text_less};

verus! {

/// Every event of the log was recorded at an instant chrono can represent.
pub open spec fn times_ok(events: Seq<EventView>) -> bool {
    forall|i: int| 0 <= i < events.len() ==> instant_ok(#[trigger] events[i].created_at as int)
}

/// An event is listed under `since`: its RFC 3339 time is not before the
/// given text (text comparison, as the store compares them).
pub open spec fn event_listed(e: EventView, since: Option<Seq<char>>) -> bool {
    match since {
        Some(s) => !text_less(instant_text(e.created_at as int), s),
        None => true,
    }
}

/// The row limit a `--limit` gives the store: a value beyond `i64` wraps to
/// a negative limit, which means no limit.
pub open spec fn store_limit(limit: usize) -> Option<int> {
    if limit <= i64::MAX {
        Some(limit as int)
    } else {
        None
    }
}

/// The events that `events list` shows: newest first, at most `limit`.
pub open spec fn event_listing(events: Seq<EventView>, since: Option<Seq<char>>, limit: usize) -> Seq<EventView> {
    first_n(pick(events, ranking(stamp_keys(event_stamps(events)), since_flags(events, since))), store_limit(limit))
}

/// The stamps that put the most recent events first.
pub open spec fn event_stamps(events: Seq<EventView>) -> Seq<int> {
    Seq::new(events.len(), |i: int| -1 - events[i].created_at)
}

/// Which events are listed under `since`.
pub open spec fn since_flags(events: Seq<EventView>, since: Option<Seq<char>>) -> Seq<bool> {
    Seq::new(events.len(), |i: int| event_listed(events[i], since))
}

/// The first event with id `id`.
pub open spec fn first_event(events: Seq<EventView>, id: Seq<char>) -> Option<EventView>
    decreases events.len(),
{
    if events.len() == 0 {
        None
    } else if events[0].id == id {
        Some(events[0])
    } else {
        first_event(events.drop_first(), id)
    }
}

/// What `events show` answers.
pub open spec fn show_event_spec(events: Seq<EventView>, id: Seq<char>) -> Result<EventView, ErrorView> {
    match first_event(events, id) {
        Some(e) => Ok(e),
        None => Err(ErrorView::NotFound("Event "@ + id + " not found"@)),
    }
}

/// What opening a workspace records: a `workspace.initialized` event by the
/// system actor.
pub open spec fn init_spec(l: LedgerView, repo_id: Seq<char>, now: i128, event_id: Seq<char>) -> LedgerView {
    with_event(
        l,
        event_of(
            event_id,
            repo_id,
            now,
            "system"@,
            "workspace.initialized"@,
            "workspace"@,
            "workspace"@,
            seq![],
        ),
    )
}

impl Ledger {
    /// Records that the workspace was initialised.
    pub fn record_init(&mut self, repo_id: &str, fresh: Fresh)
        ensures
            final(self)@ == init_spec(old(self)@, repo_id@, fresh.now, fresh.event_id@),
    {
        let payload: Vec<PayloadEntry> = Vec::new();
        assert(payload@.map_values(|q: PayloadEntry| q@) =~= seq![]);
        let event = new_event(
            fresh.event_id,
            repo_id,
            fresh.now,
            "system",
            "workspace.initialized",
            "workspace",
            "workspace",
            payload,
        );
        self.append_event(event);
    }

    /// The events at or after `since` (RFC 3339 text), newest first, at
    /// most `limit`.
    pub fn list_events(&self, since: Option<&str>, limit: usize) -> (out: Vec<Event>)
        requires
            since.is_some() ==> times_ok(self@.events),
        ensures
            views(out@) == event_listing(
                self@.events,
                match since {
                    Some(s) => Some(s@),
                    None => None,
                },
                limit,
            ),
    {
        let ghost which = match since {
            Some(s) => Some(s@),
            None => None,
        };
        let mut stamps: Vec<i128> = Vec::new();
        let mut chosen: Vec<bool> = Vec::new();
        let mut i: usize = 0;
        while i < self.events.len()
            invariant
                i <= self.events.len(),
                stamps.len() == i,
                chosen.len() == i,
                since.is_some() ==> times_ok(self@.events),
                which == match since {
                    Some(s) => Some(s@),
                    None => None::<Seq<char>>,
                },
                forall|k: int| 0 <= k < i ==> (#[trigger] stamps@[k]) == -1 - (self.events@[k].created_at as int),
                forall|k: int| 0 <= k < i ==> (#[trigger] chosen@[k]) == event_listed(self.events@[k]@, which),
            decreases self.events.len() - i,
        {
            let e = &self.events[i];
            stamps.push(-1 - e.created_at);
            let keep = match since {
                Some(s) => {
                    assert(instant_ok(self@.events[i as int].created_at as int));
                    let t = format_instant(e.created_at);
                    text_at_least(t.as_str(), s)
                },
                None => true,
            };
            chosen.push(keep);
            i = i + 1;
        }
        let cap: Option<usize> = if (limit as u128) <= 9223372036854775807u128 {
            Some(limit)
        } else {
            None
        };
        let out = ranked_rows(&self.events, &stamps, &chosen, cap);
        proof {
            let n = self@.events.len();
            assert(stamps@.map_values(|s: i128| s as int) =~= Seq::new(n, |k: int| -1 - self@.events[k].created_at));
            assert(chosen@ =~= Seq::new(n, |k: int| event_listed(self@.events[k], which)));
        }
        out
    }

    /// The event `id`.
    pub fn show_event(&self, id: &str) -> (r: Result<Event, LatchError>)
        ensures
            match r {
                Ok(e) => show_event_spec(self@.events, id@) == Ok::<EventView, ErrorView>(e@),
                Err(e) => show_event_spec(self@.events, id@) == Err::<EventView, ErrorView>(e@),
            },
    {
        let ghost all = self@.events;
        let mut i: usize = 0;
        assert(all.skip(0) =~= all);
        while i < self.events.len()
            invariant
                all == self@.events,
                i <= self.events.len(),
                first_event(all, id@) == first_event(all.skip(i as int), id@),
            decreases self.events.len() - i,
        {
            assert(all.skip(i as int)[0] == all[i as int]);
            if same_text(self.events[i].id.as_str(), id) {
                return Ok(self.events[i].copy());
            }
            assert(all.skip(i as int).drop_first() =~= all.skip(i as int + 1));
            i = i + 1;
        }
        assert(all.skip(i as int) =~= Seq::<EventView>::empty());
        Err(LatchError::NotFound(join3("Event ", id, " not found")))
    }
}

/// What an events command answers; it changes nothing.
pub open spec fn events_step(l: LedgerView, cmd: EventsCommand) -> Result<ReplyView, ErrorView> {
    match cmd {
        EventsCommand::List { since, limit } => Ok(
            ReplyView::Events(event_listing(l.events, opt_string(since), limit)),
        ),
        EventsCommand::Show { id } => map_ok(
            show_event_spec(l.events, id@),
            |e: EventView| ReplyView::EventShown(e),
        ),
    }
}

/// Runs an events command.
pub fn handle_cmd(cmd: &EventsCommand, ledger: &Ledger) -> (r: Result<Reply, LatchError>)
    requires
        cmd matches EventsCommand::List { since: Some(_), .. } ==> times_ok(ledger@.events),
    ensures
        answer(r) == events_step(ledger@, *cmd),
{
    match cmd {
        EventsCommand::List { since, limit } => {
            let s = match since {
                Some(t) => Some(t.as_str()),
                None => None,
            };
            Ok(Reply::Events(ledger.list_events(s, *limit)))
        },
        EventsCommand::Show { id } => match ledger.show_event(id.as_str()) {
            Ok(e) => Ok(Reply::EventShown(e)),
            Err(e) => Err(e),
        },
    }
}

} // verus!
