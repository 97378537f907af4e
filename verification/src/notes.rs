//! Coordination notes (hazards, handoffs, observations), durable until
//! removed.
use vstd::prelude::*;
use crate::cli::{opt_string, NoteCommand};
use crate::clock::{ulid_shaped, MAX_INSTANT_NS};
use crate::error::{ErrorView, LatchError};
use crate::journal::{event_of, fresh, new_event, text_entry, with_event, Fresh};
use crate::reply::{answer, map_ok, Reply, ReplyView, Session};
use crate::model::{Ledger, LedgerView, Note, NoteKind, NoteView, PayloadEntry, PayloadValueView};
use crate::ranking::{pick, ranking};
use crate::rows::{ranked_rows, stamp_keys, views};
use crate::text::{join3, owned, same_text};

verus! {

/// The text of a note kind.
pub open spec fn kind_text(k: NoteKind) -> Seq<char> {
    match k {
        NoteKind::Hazard => "hazard"@,
        NoteKind::Handoff => "handoff"@,
        NoteKind::Observation => "observation"@,
    }
}

/// The text of a note kind.
pub fn kind_name(k: NoteKind) -> (t: &'static str)
    ensures
        t@ == kind_text(k),
{
    match k {
        NoteKind::Hazard => "hazard",
        NoteKind::Handoff => "handoff",
        NoteKind::Observation => "observation",
    }
}

/// The note kind a text names, if any.
pub open spec fn kind_named(s: Seq<char>) -> Option<NoteKind> {
    if s == "hazard"@ {
        Some(NoteKind::Hazard)
    } else if s == "handoff"@ {
        Some(NoteKind::Handoff)
    } else if s == "observation"@ {
        Some(NoteKind::Observation)
    } else {
        None
    }
}

/// The note kind `s` names.
pub fn parse_kind(s: &str) -> (k: Option<NoteKind>)
    ensures
        k == kind_named(s@),
{
    if same_text(s, "hazard") {
        Some(NoteKind::Hazard)
    } else if same_text(s, "handoff") {
        Some(NoteKind::Handoff)
    } else if same_text(s, "observation") {
        Some(NoteKind::Observation)
    } else {
        None
    }
}

/// What adding a note does: only the three known kinds are accepted.
pub open spec fn add_note_spec(
    l: LedgerView,
    actor: Seq<char>,
    kind: Seq<char>,
    body: Seq<char>,
    repo_id: Seq<char>,
    now: i128,
    note_id: Seq<char>,
    event_id: Seq<char>,
) -> (LedgerView, Result<NoteView, ErrorView>) {
    match kind_named(kind) {
        None => (
            l,
            Err(
                ErrorView::Validation(
                    "Invalid note kind: "@ + kind + ". Must be one of: hazard, handoff, observation"@,
                ),
            ),
        ),
        Some(k) => {
            let n = NoteView { id: note_id, kind: k, body, author: actor, created_at: now };
            let e = event_of(
                event_id,
                repo_id,
                now,
                actor,
                "note.added"@,
                "note"@,
                note_id,
                seq![("kind"@, PayloadValueView::Text(kind)), ("body"@, PayloadValueView::Text(body))],
            );
            (with_event(LedgerView { notes: l.notes.push(n), ..l }, e), Ok(n))
        },
    }
}

/// A note is listed under the kind filter `kind`.
pub open spec fn note_listed(n: NoteView, kind: Option<Seq<char>>) -> bool {
    match kind {
        Some(k) => kind_text(n.kind) == k,
        None => true,
    }
}

/// The notes that `note list` shows, most recently created first.
pub open spec fn note_listing(notes: Seq<NoteView>, kind: Option<Seq<char>>) -> Seq<NoteView> {
    pick(notes, ranking(stamp_keys(newest_noted(notes)), kind_flags(notes, kind)))
}

/// The stamps that put the most recently created notes first.
pub open spec fn newest_noted(notes: Seq<NoteView>) -> Seq<int> {
    Seq::new(notes.len(), |i: int| -1 - notes[i].created_at)
}

/// Which notes are listed under the kind filter `kind`.
pub open spec fn kind_flags(notes: Seq<NoteView>, kind: Option<Seq<char>>) -> Seq<bool> {
    Seq::new(notes.len(), |i: int| note_listed(notes[i], kind))
}

/// Some note has id `id`.
pub open spec fn any_note(notes: Seq<NoteView>, id: Seq<char>) -> bool {
    exists|i: int| 0 <= i < notes.len() && (#[trigger] notes[i]).id == id
}

/// What removing note `id` does: every note with that id is deleted.
pub open spec fn remove_note_spec(
    l: LedgerView,
    actor: Seq<char>,
    id: Seq<char>,
    repo_id: Seq<char>,
    now: i128,
    event_id: Seq<char>,
) -> (LedgerView, Result<(), ErrorView>) {
    if !any_note(l.notes, id) {
        (l, Err(ErrorView::NotFound("Note "@ + id + " not found"@)))
    } else {
        let notes = l.notes.filter(|n: NoteView| n.id != id);
        let e = event_of(event_id, repo_id, now, actor, "note.removed"@, "note"@, id, seq![]);
        (with_event(LedgerView { notes, ..l }, e), Ok(()))
    }
}

impl Ledger {
    /// Adds a note of kind `hazard`, `handoff` or `observation`.
    pub fn add_note(&mut self, actor: &str, kind: &str, body: &str, repo_id: &str, fresh: Fresh) -> (r: Result<Note, LatchError>)
        ensures
            (final(self)@, match r {
                Ok(n) => Ok::<NoteView, ErrorView>(n@),
                Err(e) => Err(e@),
            }) == add_note_spec(old(self)@, actor@, kind@, body@, repo_id@, fresh.now, fresh.entity_id@, fresh.event_id@),
    {
        let k = match parse_kind(kind) {
            Some(k) => k,
            None => {
                return Err(
                    LatchError::Validation(
                        join3("Invalid note kind: ", kind, ". Must be one of: hazard, handoff, observation"),
                    ),
                );
            },
        };
        let note = Note {
            id: fresh.entity_id,
            kind: k,
            body: owned(body),
            author: owned(actor),
            created_at: fresh.now,
        };
        let mut payload: Vec<PayloadEntry> = Vec::new();
        payload.push(text_entry("kind", kind));
        payload.push(text_entry("body", body));
        let event = new_event(fresh.event_id, repo_id, fresh.now, actor, "note.added", "note", note.id.as_str(), payload);
        let stored = note.copy();
        self.notes.push(stored);
        assert(self@.notes =~= old(self)@.notes.push(note@));
        self.append_event(event);
        assert(payload@.map_values(|q: PayloadEntry| q@) =~= seq![
            ("kind"@, PayloadValueView::Text(kind@)),
            ("body"@, PayloadValueView::Text(body@)),
        ]);
        Ok(note)
    }

    /// The notes, of kind `kind` when given, most recently created first.
    pub fn notes_of(&self, kind: Option<&str>) -> (out: Vec<Note>)
        ensures
            views(out@) == note_listing(
                self@.notes,
                match kind {
                    Some(k) => Some(k@),
                    None => None,
                },
            ),
    {
        let ghost which = match kind {
            Some(k) => Some(k@),
            None => None,
        };
        let mut stamps: Vec<i128> = Vec::new();
        let mut chosen: Vec<bool> = Vec::new();
        let mut i: usize = 0;
        while i < self.notes.len()
            invariant
                i <= self.notes.len(),
                stamps.len() == i,
                chosen.len() == i,
                which == match kind {
                    Some(k) => Some(k@),
                    None => None::<Seq<char>>,
                },
                forall|k: int| 0 <= k < i ==> (#[trigger] stamps@[k]) == -1 - (self.notes@[k].created_at as int),
                forall|k: int| 0 <= k < i ==> (#[trigger] chosen@[k]) == note_listed(self.notes@[k]@, which),
            decreases self.notes.len() - i,
        {
            let n = &self.notes[i];
            stamps.push(-1 - n.created_at);
            let keep = match kind {
                Some(k) => same_text(kind_name(n.kind), k),
                None => true,
            };
            chosen.push(keep);
            i = i + 1;
        }
        let out = ranked_rows(&self.notes, &stamps, &chosen, None);
        proof {
            let n = self@.notes.len();
            assert(stamps@.map_values(|s: i128| s as int) =~= Seq::new(n, |k: int| -1 - self@.notes[k].created_at));
            assert(chosen@ =~= Seq::new(n, |k: int| note_listed(self@.notes[k], which)));
        }
        out
    }

    /// Removes note `id`.
    pub fn remove_note(&mut self, actor: &str, id: &str, repo_id: &str, fresh: Fresh) -> (r: Result<(), LatchError>)
        ensures
            (final(self)@, match r {
                Ok(_) => Ok::<(), ErrorView>(()),
                Err(e) => Err(e@),
            }) == remove_note_spec(old(self)@, actor@, id@, repo_id@, fresh.now, fresh.event_id@),
    {
        let ghost all = old(self)@.notes;
        let ghost pred = |n: NoteView| n.id != id@;
        let mut kept: Vec<Note> = Vec::new();
        let mut found = false;
        let mut i: usize = 0;
        while i < self.notes.len()
            invariant
                all == self@.notes,
                pred == (|n: NoteView| n.id != id@),
                i <= self.notes.len(),
                views(kept@) == all.take(i as int).filter(pred),
                found == exists|k: int| 0 <= k < i && (#[trigger] all[k]).id == id@,
            decreases self.notes.len() - i,
        {
            proof {
                reveal_with_fuel(Seq::<_>::filter, 1);
                assert(all.take(i as int + 1).drop_last() =~= all.take(i as int));
            }
            let n = &self.notes[i];
            assert(n@ == all[i as int]);
            if same_text(n.id.as_str(), id) {
                found = true;
            } else {
                let d = n.copy();
                let ghost before = kept@;
                kept.push(d);
                assert(views(kept@) =~= views(before).push(d@));
            }
            i = i + 1;
        }
        assert(all.take(self.notes.len() as int) =~= all);
        if !found {
            return Err(LatchError::NotFound(join3("Note ", id, " not found")));
        }
        self.notes = kept;
        let payload: Vec<PayloadEntry> = Vec::new();
        assert(payload@.map_values(|q: PayloadEntry| q@) =~= seq![]);
        let event = new_event(fresh.event_id, repo_id, fresh.now, actor, "note.removed", "note", id, payload);
        self.append_event(event);
        Ok(())
    }
}

/// What a note command does, given the instant and the fresh ids.
pub open spec fn note_step(
    l: LedgerView,
    cmd: NoteCommand,
    s: Session,
    now: i128,
    entity_id: Seq<char>,
    event_id: Seq<char>,
) -> (LedgerView, Result<ReplyView, ErrorView>) {
    match cmd {
        NoteCommand::Add { kind, body } => {
            let (l2, r) = add_note_spec(l, s.actor@, kind@, body@, s.repo_id@, now, entity_id, event_id);
            (l2, map_ok(r, |n: NoteView| ReplyView::NoteAdded(n)))
        },
        NoteCommand::List { kind } => (l, Ok(ReplyView::Notes(note_listing(l.notes, opt_string(kind))))),
        NoteCommand::Remove { id } => {
            let (l2, r) = remove_note_spec(l, s.actor@, id@, s.repo_id@, now, event_id);
            (l2, map_ok(r, |u: ()| ReplyView::NoteRemoved(id@)))
        },
    }
}

/// Runs a note command with a given instant and fresh ids.
pub fn apply_note(cmd: &NoteCommand, session: &Session, fresh: Fresh, ledger: &mut Ledger) -> (r: Result<Reply, LatchError>)
    ensures
        (final(ledger)@, answer(r)) == note_step(
            old(ledger)@,
            *cmd,
            *session,
            fresh.now,
            fresh.entity_id@,
            fresh.event_id@,
        ),
{
    let actor = session.actor.as_str();
    let repo_id = session.repo_id.as_str();
    match cmd {
        NoteCommand::Add { kind, body } => {
            match ledger.add_note(actor, kind.as_str(), body.as_str(), repo_id, fresh) {
                Ok(n) => Ok(Reply::NoteAdded(n)),
                Err(e) => Err(e),
            }
        },
        NoteCommand::List { kind } => {
            let k = match kind {
                Some(s) => Some(s.as_str()),
                None => None,
            };
            Ok(Reply::Notes(ledger.notes_of(k)))
        },
        NoteCommand::Remove { id } => {
            match ledger.remove_note(actor, id.as_str(), repo_id, fresh) {
                Ok(_) => Ok(Reply::NoteRemoved(id.clone())),
                Err(e) => Err(e),
            }
        },
    }
}

/// Runs a note command: reads the clock and draws fresh ids.
pub fn handle(cmd: &NoteCommand, session: &Session, ledger: &mut Ledger) -> (r: Result<Reply, LatchError>)
    ensures
        exists|now: i128, entity_id: Seq<char>, event_id: Seq<char>|
            0 <= now <= MAX_INSTANT_NS && ulid_shaped(entity_id) && ulid_shaped(event_id) && #[trigger] note_step(old(ledger)@, *cmd, *session, now, entity_id, event_id)
                == (final(ledger)@, answer(r)),
{
    let f = fresh();
    let ghost now = f.now;
    let ghost a = f.entity_id@;
    let ghost b = f.event_id@;
    let r = apply_note(cmd, session, f, ledger);
    assert(note_step(old(ledger)@, *cmd, *session, now, a, b) == (ledger@, answer(r)));
    r
}

} // verus!
