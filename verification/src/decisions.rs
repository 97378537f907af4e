//! Decisions: recorded once, never edited, replaced by superseding.
use vstd::prelude::*;
use crate::cli::{opt_string, DecisionCommand};
use crate::clock::{ulid_shaped, MAX_INSTANT_NS};
use crate::error::{ErrorView, LatchError};
use crate::journal::{event_of, fresh, list_entry, new_event, text_entry, with_event, Fresh};
use crate::reply::{answer, map_ok, Reply, ReplyView, Session};
use crate::model::{
    copy_strings, texts, Decision, DecisionStatus, DecisionView, Ledger, LedgerView, PayloadEntry,
    PayloadValueView,
};
use crate::ranking::{pick, ranking};
use crate::rows::{ranked_rows, stamp_keys, views};
use crate::text::{join3, owned, same_text};

verus! {

/// The body of an entry: the text of the body file when one is given (or
/// the error reading it), else the inline body, else empty.
pub open spec fn chosen_body(body: Option<Seq<char>>, file: Option<Result<Seq<char>, Seq<char>>>) -> Result<Seq<char>, ErrorView> {
    match file {
        Some(Ok(t)) => Ok(t),
        Some(Err(m)) => Err(ErrorView::Io(m)),
        None => match body {
            Some(b) => Ok(b),
            None => Ok(Seq::empty()),
        },
    }
}

/// The view of a read body file.
pub open spec fn file_view(file: Option<Result<String, String>>) -> Option<Result<Seq<char>, Seq<char>>> {
    match file {
        Some(Ok(t)) => Some(Ok(t@)),
        Some(Err(m)) => Some(Err(m@)),
        None => None,
    }
}

/// The view of an optional text.
pub open spec fn opt_view(v: Option<&str>) -> Option<Seq<char>> {
    match v {
        Some(s) => Some(s@),
        None => None,
    }
}

/// Chooses the body of an entry from the inline text and the body file's
/// contents (read by the caller).
pub fn read_body(body: Option<&str>, file: &Option<Result<String, String>>) -> (r: Result<String, LatchError>)
    ensures
        match r {
            Ok(b) => chosen_body(opt_view(body), file_view(*file)) == Ok::<Seq<char>, ErrorView>(b@),
            Err(e) => chosen_body(opt_view(body), file_view(*file)) == Err::<Seq<char>, ErrorView>(e@),
        },
{
    match file {
        Some(Ok(t)) => Ok(t.clone()),
        Some(Err(m)) => Err(LatchError::Io(m.clone())),
        None => match body {
            Some(b) => Ok(owned(b)),
            None => Ok(String::new()),
        },
    }
}

/// The text of a decision status.
pub open spec fn decision_status_text(s: DecisionStatus) -> Seq<char> {
    match s {
        DecisionStatus::Active => "active"@,
        DecisionStatus::Superseded => "superseded"@,
    }
}

/// The text of a decision status.
pub fn decision_status_name(s: DecisionStatus) -> (t: &'static str)
    ensures
        t@ == decision_status_text(s),
{
    match s {
        DecisionStatus::Active => "active",
        DecisionStatus::Superseded => "superseded",
    }
}

/// What recording a decision does.
pub open spec fn add_decision_spec(
    l: LedgerView,
    actor: Seq<char>,
    title: Seq<char>,
    body: Result<Seq<char>, ErrorView>,
    tags: Seq<Seq<char>>,
    participants: Seq<Seq<char>>,
    repo_id: Seq<char>,
    now: i128,
    decision_id: Seq<char>,
    event_id: Seq<char>,
) -> (LedgerView, Result<DecisionView, ErrorView>) {
    match body {
        Err(e) => (l, Err(e)),
        Ok(b) => {
            let d = DecisionView {
                id: decision_id,
                title,
                body: b,
                participants,
                tags,
                status: DecisionStatus::Active,
                created_at: now,
                superseded_by: None,
            };
            let e = event_of(
                event_id,
                repo_id,
                now,
                actor,
                "decision.added"@,
                "decision"@,
                decision_id,
                seq![
                    ("title"@, PayloadValueView::Text(title)),
                    ("tags"@, PayloadValueView::List(tags)),
                    ("participants"@, PayloadValueView::List(participants)),
                ],
            );
            (with_event(LedgerView { decisions: l.decisions.push(d), ..l }, e), Ok(d))
        },
    }
}

/// All decisions, most recently created first.
pub open spec fn decision_listing(ds: Seq<DecisionView>) -> Seq<DecisionView> {
    pick(ds, ranking(stamp_keys(decision_stamps(ds)), all_flags(ds)))
}

/// The stamps that put the most recently created decisions first.
pub open spec fn decision_stamps(ds: Seq<DecisionView>) -> Seq<int> {
    Seq::new(ds.len(), |i: int| -1 - ds[i].created_at)
}

/// Every decision is listed.
pub open spec fn all_flags(ds: Seq<DecisionView>) -> Seq<bool> {
    Seq::new(ds.len(), |i: int| true)
}

/// The first decision with id `id`.
pub open spec fn first_decision(ds: Seq<DecisionView>, id: Seq<char>) -> Option<DecisionView>
    decreases ds.len(),
{
    if ds.len() == 0 {
        None
    } else if ds[0].id == id {
        Some(ds[0])
    } else {
        first_decision(ds.drop_first(), id)
    }
}

/// What `decision show` answers.
pub open spec fn show_decision_spec(ds: Seq<DecisionView>, id: Seq<char>) -> Result<DecisionView, ErrorView> {
    match first_decision(ds, id) {
        Some(d) => Ok(d),
        None => Err(ErrorView::NotFound("Decision "@ + id + " not found"@)),
    }
}

/// What superseding decision `id` does: a new active decision takes its
/// participants and tags, and every decision with that id is marked
/// superseded by the new one.
pub open spec fn supersede_spec(
    l: LedgerView,
    actor: Seq<char>,
    id: Seq<char>,
    title: Seq<char>,
    body: Result<Seq<char>, ErrorView>,
    repo_id: Seq<char>,
    now: i128,
    decision_id: Seq<char>,
    event_id: Seq<char>,
) -> (LedgerView, Result<DecisionView, ErrorView>) {
    match first_decision(l.decisions, id) {
        None => (l, Err(ErrorView::NotFound("Decision "@ + id + " not found"@))),
        Some(old) => if old.status == DecisionStatus::Superseded {
            (l, Err(ErrorView::Validation("Decision "@ + id + " is already superseded"@)))
        } else {
            match body {
                Err(e) => (l, Err(e)),
                Ok(b) => {
                    let d = DecisionView {
                        id: decision_id,
                        title,
                        body: b,
                        participants: old.participants,
                        tags: old.tags,
                        status: DecisionStatus::Active,
                        created_at: now,
                        superseded_by: None,
                    };
                    let marked = l.decisions.map_values(
                        |x: DecisionView|
                            if x.id == id {
                                DecisionView {
                                    status: DecisionStatus::Superseded,
                                    superseded_by: Some(decision_id),
                                    ..x
                                }
                            } else {
                                x
                            },
                    );
                    let e = event_of(
                        event_id,
                        repo_id,
                        now,
                        actor,
                        "decision.superseded"@,
                        "decision"@,
                        decision_id,
                        seq![
                            ("supersedes"@, PayloadValueView::Text(id)),
                            ("title"@, PayloadValueView::Text(title)),
                        ],
                    );
                    (with_event(LedgerView { decisions: marked.push(d), ..l }, e), Ok(d))
                },
            }
        },
    }
}

impl Ledger {
    /// Records a new active decision.
    pub fn add_decision(
        &mut self,
        actor: &str,
        title: &str,
        body: Result<String, LatchError>,
        tags: &Vec<String>,
        participants: &Vec<String>,
        repo_id: &str,
        fresh: Fresh,
    ) -> (r: Result<Decision, LatchError>)
        ensures
            (final(self)@, match r {
                Ok(d) => Ok::<DecisionView, ErrorView>(d@),
                Err(e) => Err(e@),
            }) == add_decision_spec(
                old(self)@,
                actor@,
                title@,
                match body {
                    Ok(b) => Ok::<Seq<char>, ErrorView>(b@),
                    Err(e) => Err(e@),
                },
                texts(tags@),
                texts(participants@),
                repo_id@,
                fresh.now,
                fresh.entity_id@,
                fresh.event_id@,
            ),
    {
        let b = match body {
            Ok(b) => b,
            Err(e) => return Err(e),
        };
        let decision = Decision {
            id: fresh.entity_id,
            title: owned(title),
            body: b,
            participants: copy_strings(participants),
            tags: copy_strings(tags),
            status: DecisionStatus::Active,
            created_at: fresh.now,
            superseded_by: None,
        };
        let mut payload: Vec<PayloadEntry> = Vec::new();
        payload.push(text_entry("title", title));
        payload.push(list_entry("tags", copy_strings(tags)));
        payload.push(list_entry("participants", copy_strings(participants)));
        let event = new_event(
            fresh.event_id,
            repo_id,
            fresh.now,
            actor,
            "decision.added",
            "decision",
            decision.id.as_str(),
            payload,
        );
        let stored = decision.copy();
        self.decisions.push(stored);
        assert(self@.decisions =~= old(self)@.decisions.push(decision@));
        self.append_event(event);
        assert(payload@.map_values(|q: PayloadEntry| q@) =~= seq![
            ("title"@, PayloadValueView::Text(title@)),
            ("tags"@, PayloadValueView::List(texts(tags@))),
            ("participants"@, PayloadValueView::List(texts(participants@))),
        ]);
        Ok(decision)
    }

    /// All decisions, most recently created first.
    pub fn all_decisions(&self) -> (out: Vec<Decision>)
        ensures
            views(out@) == decision_listing(self@.decisions),
    {
        let mut stamps: Vec<i128> = Vec::new();
        let mut chosen: Vec<bool> = Vec::new();
        let mut i: usize = 0;
        while i < self.decisions.len()
            invariant
                i <= self.decisions.len(),
                stamps.len() == i,
                chosen.len() == i,
                forall|k: int| 0 <= k < i ==> (#[trigger] stamps@[k]) == -1 - (self.decisions@[k].created_at as int),
                forall|k: int| 0 <= k < i ==> (#[trigger] chosen@[k]),
            decreases self.decisions.len() - i,
        {
            stamps.push(-1 - self.decisions[i].created_at);
            chosen.push(true);
            i = i + 1;
        }
        let out = ranked_rows(&self.decisions, &stamps, &chosen, None);
        proof {
            let n = self@.decisions.len();
            assert(stamps@.map_values(|s: i128| s as int) =~= Seq::new(n, |k: int| -1 - self@.decisions[k].created_at));
            assert(chosen@ =~= Seq::new(n, |k: int| true));
        }
        out
    }

    fn find_decision(&self, id: &str) -> (r: Option<usize>)
        ensures
            match r {
                Some(i) => i < self.decisions.len() && first_decision(self@.decisions, id@) == Some(self@.decisions[i as int]),
                None => first_decision(self@.decisions, id@).is_none(),
            },
    {
        let ghost all = self@.decisions;
        let mut i: usize = 0;
        assert(all.skip(0) =~= all);
        while i < self.decisions.len()
            invariant
                all == self@.decisions,
                i <= self.decisions.len(),
                first_decision(all, id@) == first_decision(all.skip(i as int), id@),
            decreases self.decisions.len() - i,
        {
            assert(all.skip(i as int)[0] == all[i as int]);
            if same_text(self.decisions[i].id.as_str(), id) {
                return Some(i);
            }
            assert(all.skip(i as int).drop_first() =~= all.skip(i as int + 1));
            i = i + 1;
        }
        None
    }

    /// The decision `id`.
    pub fn show_decision(&self, id: &str) -> (r: Result<Decision, LatchError>)
        ensures
            match r {
                Ok(d) => show_decision_spec(self@.decisions, id@) == Ok::<DecisionView, ErrorView>(d@),
                Err(e) => show_decision_spec(self@.decisions, id@) == Err::<DecisionView, ErrorView>(e@),
            },
    {
        match self.find_decision(id) {
            Some(i) => Ok(self.decisions[i].copy()),
            None => Err(LatchError::NotFound(join3("Decision ", id, " not found"))),
        }
    }

    /// Replaces decision `id` with a new one.
    pub fn supersede_decision(
        &mut self,
        actor: &str,
        id: &str,
        title: &str,
        body: Result<String, LatchError>,
        repo_id: &str,
        fresh: Fresh,
    ) -> (r: Result<Decision, LatchError>)
        ensures
            (final(self)@, match r {
                Ok(d) => Ok::<DecisionView, ErrorView>(d@),
                Err(e) => Err(e@),
            }) == supersede_spec(
                old(self)@,
                actor@,
                id@,
                title@,
                match body {
                    Ok(b) => Ok::<Seq<char>, ErrorView>(b@),
                    Err(e) => Err(e@),
                },
                repo_id@,
                fresh.now,
                fresh.entity_id@,
                fresh.event_id@,
            ),
    {
        let at = match self.find_decision(id) {
            Some(i) => i,
            None => return Err(LatchError::NotFound(join3("Decision ", id, " not found"))),
        };
        if self.decisions[at].status == DecisionStatus::Superseded {
            return Err(LatchError::Validation(join3("Decision ", id, " is already superseded")));
        }
        let b = match body {
            Ok(b) => b,
            Err(e) => return Err(e),
        };
        let decision = Decision {
            id: fresh.entity_id,
            title: owned(title),
            body: b,
            participants: copy_strings(&self.decisions[at].participants),
            tags: copy_strings(&self.decisions[at].tags),
            status: DecisionStatus::Active,
            created_at: fresh.now,
            superseded_by: None,
        };
        let ghost all = old(self)@.decisions;
        let ghost new_id = fresh.entity_id@;
        assert(decision@.participants == all[at as int].participants);
        assert(decision@.tags == all[at as int].tags);
        let mut updated: Vec<Decision> = Vec::new();
        let mut i: usize = 0;
        while i < self.decisions.len()
            invariant
                all == self@.decisions,
                new_id == decision.id@,
                i <= self.decisions.len(),
                views(updated@) =~= all.take(i as int).map_values(
                    |x: DecisionView|
                        if x.id == id@ {
                            DecisionView {
                                status: DecisionStatus::Superseded,
                                superseded_by: Some(new_id),
                                ..x
                            }
                        } else {
                            x
                        },
                ),
            decreases self.decisions.len() - i,
        {
            let x = &self.decisions[i];
            let mut d = x.copy();
            if same_text(x.id.as_str(), id) {
                d.status = DecisionStatus::Superseded;
                d.superseded_by = Some(decision.id.clone());
            }
            let ghost before = updated@;
            updated.push(d);
            assert(views(updated@) =~= views(before).push(d@));
            i = i + 1;
        }
        assert(all.take(self.decisions.len() as int) =~= all);
        let stored = decision.copy();
        let ghost marked = updated@;
        updated.push(stored);
        assert(views(updated@) =~= views(marked).push(decision@));
        self.decisions = updated;
        let mut payload: Vec<PayloadEntry> = Vec::new();
        payload.push(text_entry("supersedes", id));
        payload.push(text_entry("title", title));
        let event = new_event(
            fresh.event_id,
            repo_id,
            fresh.now,
            actor,
            "decision.superseded",
            "decision",
            decision.id.as_str(),
            payload,
        );
        self.append_event(event);
        assert(payload@.map_values(|q: PayloadEntry| q@) =~= seq![
            ("supersedes"@, PayloadValueView::Text(id@)),
            ("title"@, PayloadValueView::Text(title@)),
        ]);
        Ok(decision)
    }
}

/// What a decision command does, given the instant and the fresh ids.
pub open spec fn decision_step(
    l: LedgerView,
    cmd: DecisionCommand,
    s: Session,
    now: i128,
    entity_id: Seq<char>,
    event_id: Seq<char>,
) -> (LedgerView, Result<ReplyView, ErrorView>) {
    match cmd {
        DecisionCommand::Add { title, body, body_file, tag, participant } => {
            let (l2, r) = add_decision_spec(
                l,
                s.actor@,
                title@,
                chosen_body(opt_string(body), file_view(s.body_file)),
                texts(tag@),
                texts(participant@),
                s.repo_id@,
                now,
                entity_id,
                event_id,
            );
            (l2, map_ok(r, |d: DecisionView| ReplyView::DecisionAdded(d)))
        },
        DecisionCommand::List => (l, Ok(ReplyView::Decisions(decision_listing(l.decisions)))),
        DecisionCommand::Show { id } => (
            l,
            map_ok(show_decision_spec(l.decisions, id@), |d: DecisionView| ReplyView::DecisionShown(d)),
        ),
        DecisionCommand::Supersede { id, title, body, body_file } => {
            let (l2, r) = supersede_spec(
                l,
                s.actor@,
                id@,
                title@,
                chosen_body(opt_string(body), file_view(s.body_file)),
                s.repo_id@,
                now,
                entity_id,
                event_id,
            );
            (l2, map_ok(r, |d: DecisionView| ReplyView::DecisionSuperseded(d)))
        },
    }
}

/// Runs a decision command with a given instant and fresh ids.
pub fn apply_decision(cmd: &DecisionCommand, session: &Session, fresh: Fresh, ledger: &mut Ledger) -> (r: Result<Reply, LatchError>)
    ensures
        (final(ledger)@, answer(r)) == decision_step(
            old(ledger)@,
            *cmd,
            *session,
            fresh.now,
            fresh.entity_id@,
            fresh.event_id@,
        ),
{
    let actor = session.actor.as_str();
    let repo_id = session.repo_id.as_str();
    match cmd {
        DecisionCommand::Add { title, body, body_file, tag, participant } => {
            let b = match body {
                Some(s) => Some(s.as_str()),
                None => None,
            };
            let text = read_body(b, &session.body_file);
            match ledger.add_decision(actor, title.as_str(), text, tag, participant, repo_id, fresh) {
                Ok(d) => Ok(Reply::DecisionAdded(d)),
                Err(e) => Err(e),
            }
        },
        DecisionCommand::List => Ok(Reply::Decisions(ledger.all_decisions())),
        DecisionCommand::Show { id } => {
            match ledger.show_decision(id.as_str()) {
                Ok(d) => Ok(Reply::DecisionShown(d)),
                Err(e) => Err(e),
            }
        },
        DecisionCommand::Supersede { id, title, body, body_file } => {
            let b = match body {
                Some(s) => Some(s.as_str()),
                None => None,
            };
            let text = read_body(b, &session.body_file);
            match ledger.supersede_decision(actor, id.as_str(), title.as_str(), text, repo_id, fresh) {
                Ok(d) => Ok(Reply::DecisionSuperseded(d)),
                Err(e) => Err(e),
            }
        },
    }
}

/// Runs a decision command: reads the clock and draws fresh ids.
pub fn handle(cmd: &DecisionCommand, session: &Session, ledger: &mut Ledger) -> (r: Result<Reply, LatchError>)
    ensures
        exists|now: i128, entity_id: Seq<char>, event_id: Seq<char>|
            0 <= now <= MAX_INSTANT_NS && ulid_shaped(entity_id) && ulid_shaped(event_id) && #[trigger] decision_step(old(ledger)@, *cmd, *session, now, entity_id, event_id)
                == (final(ledger)@, answer(r)),
{
    let f = fresh();
    let ghost now = f.now;
    let ghost a = f.entity_id@;
    let ghost b = f.event_id@;
    let r = apply_decision(cmd, session, f, ledger);
    assert(decision_step(old(ledger)@, *cmd, *session, now, a, b) == (ledger@, answer(r)));
    r
}

} // verus!
