//! What holds of every command the library runs: the event log, the
//! lifecycles of the entities, and the claim conflict rules.
use vstd::prelude::*;
use crate::cli::{ClaimCommand, Command, ContractCommand, DecisionCommand, NoteCommand, TaskCommand};
use crate::commands::run_outcome;
use crate::error::ErrorView;
use crate::claims::{claim_listing, claim_live, live_flags, newest_acquired, conflicts_with, dir_form, normalized, paths_overlap};
use crate::ranking::lemma_listing_members;
use crate::context::{claim_shown, overview_matches, shown_flags, soonest_expiring, Overview};
use crate::rows::views;
use crate::tasks::{listed_flags, newest_created, task_active, task_listed, task_listing};
use crate::clock::{instant_ok, ttl_outcome, ttl_overflows};
use crate::contracts::{first_version, get_contract_spec, version_taken};
use crate::decisions::{first_decision, show_decision_spec};
use crate::events::{first_event, show_event_spec};
use crate::model::{ClaimStatus, ClaimView, ContractView, EventView, DecisionStatus, DecisionView, LedgerView, NoteView, TaskStatus, TaskView};
use crate::reply::{ReplyView, Session};
use crate::workspace::well_timed;
use crate::context::expiries_ok;
use crate::events::times_ok;
use crate::claims::acquired_stamps;
use crate::tasks::created_stamps;
use crate::decisions::{all_flags, decision_listing, decision_stamps};
use crate::events::{event_listed, event_listing, event_stamps, since_flags, store_limit};
use crate::notes::note_listed;
use crate::context::hazards_spec;
use crate::contracts::record_contract_spec;
use crate::model::NoteKind;
use crate::notes::{kind_flags, kind_text, newest_noted, note_listing};
use crate::ranking::{first_n, pick, ranking};
use crate::rows::{lemma_stamp_order, stamp_keys};


verus! {

/// The commands that write to the ledger.
pub open spec fn writes(cmd: Command) -> bool {
    match cmd {
        Command::Init => true,
        Command::Status { .. } | Command::Context { .. } | Command::Events(_) => false,
        Command::Claim(c) => !(c is List),
        Command::Decision(c) => c is Add || c is Supersede,
        Command::Contract(c) => c is Record,
        Command::Task(c) => !(c is List),
        Command::Note(c) => !(c is List),
    }
}

/// `new` is `old` with one more event, recorded at `now` in workspace
/// `repo_id`, and the events before it untouched.
pub open spec fn one_event_appended(old: LedgerView, new: LedgerView, now: i128, repo_id: Seq<char>) -> bool {
    &&& new.events.len() == old.events.len() + 1
    &&& new.events.take(old.events.len() as int) == old.events
    &&& new.events.last().created_at == now
    &&& new.events.last().repo_id == repo_id
}

/// Every command that changes the ledger appends exactly one event, at the
/// instant it ran and for the session's workspace; the earlier events are
/// never touched.  A refused command, and a command that only reads,
/// leaves the ledger as it was.
pub proof fn law_one_event_per_mutation(
    old: LedgerView,
    cmd: Command,
    s: Session,
    new: LedgerView,
    ans: Result<ReplyView, ErrorView>,
    now: i128,
    entity_id: Seq<char>,
    event_id: Seq<char>,
)
    requires
        run_outcome(old, cmd, s, new, ans, now, entity_id, event_id),
    ensures
        ans is Err ==> new == old,
        !writes(cmd) ==> new == old,
        writes(cmd) && ans is Ok ==> one_event_appended(old, new, now, s.repo_id@),
{
    assert(old.events.push(new.events.last()).take(old.events.len() as int) =~= old.events);
    match cmd {
        Command::Claim(c) => {
            assert(old.events.push(new.events.last()).take(old.events.len() as int) =~= old.events);
        },
        _ => {},
    }
}

/// Every instant the ledger renders stays in chrono's range: a command run
/// on a well-timed ledger leaves it well timed (claims never expire beyond
/// what chrono can represent, and events are stamped by the clock).
pub proof fn law_times_stay_in_range(
    old: LedgerView,
    cmd: Command,
    s: Session,
    new: LedgerView,
    ans: Result<ReplyView, ErrorView>,
    now: i128,
    entity_id: Seq<char>,
    event_id: Seq<char>,
)
    requires
        run_outcome(old, cmd, s, new, ans, now, entity_id, event_id),
        well_timed(old),
    ensures
        well_timed(new),
{
    law_one_event_per_mutation(old, cmd, s, new, ans, now, entity_id, event_id);
    if new != old {
        assert forall|i: int| 0 <= i < new.events.len() implies instant_ok(#[trigger] new.events[i].created_at as int) by {
            if i < old.events.len() {
                assert(new.events[i] == new.events.take(old.events.len() as int)[i]);
            }
        }
        match cmd {
            Command::Claim(c) => {
                assert forall|i: int| 0 <= i < new.claims.len() implies instant_ok(#[trigger] new.claims[i].expires_at as int) by {
                    if i < old.claims.len() {
                        assert(instant_ok(old.claims[i].expires_at as int));
                    }
                }
            },
            _ => {
                assert(new.claims == old.claims);
            },
        }
    }
}

/// The moves a task's status may make: none, open → taken → done, or from
/// open or taken to canceled.  Done and canceled are final.
pub open spec fn status_advances(from: TaskStatus, to: TaskStatus) -> bool {
    ||| from == to
    ||| from == TaskStatus::Open && (to == TaskStatus::Taken || to == TaskStatus::Canceled)
    ||| from == TaskStatus::Taken && (to == TaskStatus::Done || to == TaskStatus::Canceled)
}

/// A task as it was and as it is: the same task, whose status has only
/// moved forward.
pub open spec fn task_kept(a: TaskView, b: TaskView) -> bool {
    &&& b.id == a.id
    &&& b.title == a.title
    &&& b.body == a.body
    &&& b.assigned_to == a.assigned_to
    &&& b.created_by == a.created_by
    &&& b.priority == a.priority
    &&& b.created_at == a.created_at
    &&& status_advances(a.status, b.status)
}

/// Tasks are never removed, never rewritten, and move only along their
/// lifecycle: open → taken → done, with cancellation from open or taken.
/// Done and canceled tasks stay so.
pub proof fn law_task_lifecycle(
    old: LedgerView,
    cmd: Command,
    s: Session,
    new: LedgerView,
    ans: Result<ReplyView, ErrorView>,
    now: i128,
    entity_id: Seq<char>,
    event_id: Seq<char>,
)
    requires
        run_outcome(old, cmd, s, new, ans, now, entity_id, event_id),
    ensures
        old.tasks.len() <= new.tasks.len(),
        forall|i: int| 0 <= i < old.tasks.len() ==> task_kept(old.tasks[i], #[trigger] new.tasks[i]),
{
    law_one_event_per_mutation(old, cmd, s, new, ans, now, entity_id, event_id);
    assert forall|i: int| 0 <= i < old.tasks.len() implies task_kept(old.tasks[i], #[trigger] new.tasks[i]) by {
        match cmd {
            Command::Task(c) => {
                if new.tasks.len() == old.tasks.len() + 1 {
                    assert(new.tasks[i] == old.tasks.push(new.tasks.last())[i]);
                }
            },
            _ => {},
        }
    }
}

/// A decision as it was and as it is: the same record, at most marked
/// superseded.
pub open spec fn decision_kept(a: DecisionView, b: DecisionView) -> bool {
    &&& b.id == a.id
    &&& b.title == a.title
    &&& b.body == a.body
    &&& b.participants == a.participants
    &&& b.tags == a.tags
    &&& b.created_at == a.created_at
    &&& (b.status == a.status || b.status == DecisionStatus::Superseded)
}

/// Decisions are append-only: none is removed or edited; the only change a
/// recorded decision sees is being marked superseded.
pub proof fn law_decisions_append_only(
    old: LedgerView,
    cmd: Command,
    s: Session,
    new: LedgerView,
    ans: Result<ReplyView, ErrorView>,
    now: i128,
    entity_id: Seq<char>,
    event_id: Seq<char>,
)
    requires
        run_outcome(old, cmd, s, new, ans, now, entity_id, event_id),
    ensures
        old.decisions.len() <= new.decisions.len(),
        forall|i: int| 0 <= i < old.decisions.len() ==> decision_kept(old.decisions[i], #[trigger] new.decisions[i]),
{
    law_one_event_per_mutation(old, cmd, s, new, ans, now, entity_id, event_id);
}

/// Contracts are never modified: recording a version only adds a contract,
/// and every earlier contract stays exactly as it was.
pub proof fn law_contracts_never_change(
    old: LedgerView,
    cmd: Command,
    s: Session,
    new: LedgerView,
    ans: Result<ReplyView, ErrorView>,
    now: i128,
    entity_id: Seq<char>,
    event_id: Seq<char>,
)
    requires
        run_outcome(old, cmd, s, new, ans, now, entity_id, event_id),
    ensures
        old.contracts.len() <= new.contracts.len() <= old.contracts.len() + 1,
        new.contracts.take(old.contracts.len() as int) == old.contracts,
{
    law_one_event_per_mutation(old, cmd, s, new, ans, now, entity_id, event_id);
    assert(old.contracts.take(old.contracts.len() as int) =~= old.contracts);
    assert(old.contracts.push(new.contracts.last()).take(old.contracts.len() as int) =~= old.contracts);
}

/// No two contracts share a name and a version.
pub open spec fn versions_unique(cs: Seq<ContractView>) -> bool {
    forall|i: int, j: int|
        0 <= i < cs.len() && 0 <= j < cs.len() && i != j ==> !(#[trigger] cs[i].name == cs[j].name
            && #[trigger] cs[j].version == cs[i].version)
}

/// `name` + `version` stays unique among contracts: no command records a
/// second contract under a name and version already taken.
pub proof fn law_contract_versions_unique(
    old: LedgerView,
    cmd: Command,
    s: Session,
    new: LedgerView,
    ans: Result<ReplyView, ErrorView>,
    now: i128,
    entity_id: Seq<char>,
    event_id: Seq<char>,
)
    requires
        run_outcome(old, cmd, s, new, ans, now, entity_id, event_id),
        versions_unique(old.contracts),
    ensures
        versions_unique(new.contracts),
{
    law_contracts_never_change(old, cmd, s, new, ans, now, entity_id, event_id);
    if new.contracts.len() == old.contracts.len() + 1 {
        assert(new.contracts =~= old.contracts.push(new.contracts.last()));
        let n = old.contracts.len() as int;
        assert forall|i: int, j: int|
            0 <= i < new.contracts.len() && 0 <= j < new.contracts.len() && i != j implies !(#[trigger] new.contracts[i].name
                == new.contracts[j].name && #[trigger] new.contracts[j].version == new.contracts[i].version) by {
            if i < n && j < n {
                assert(new.contracts[i] == old.contracts[i]);
                assert(new.contracts[j] == old.contracts[j]);
            }
        }
    } else {
        assert(new.contracts =~= old.contracts.take(old.contracts.len() as int));
        assert(old.contracts.take(old.contracts.len() as int) =~= old.contracts);
    }
}

/// Notes are durable until explicitly removed: every command but
/// `note remove` keeps every note, and `note remove` keeps every note with
/// another id.
pub proof fn law_notes_durable(
    old: LedgerView,
    cmd: Command,
    s: Session,
    new: LedgerView,
    ans: Result<ReplyView, ErrorView>,
    now: i128,
    entity_id: Seq<char>,
    event_id: Seq<char>,
)
    requires
        run_outcome(old, cmd, s, new, ans, now, entity_id, event_id),
    ensures
        !(cmd matches Command::Note(NoteCommand::Remove { .. })) ==> new.notes.take(old.notes.len() as int)
            == old.notes,
        cmd matches Command::Note(NoteCommand::Remove { id }) ==> new == old || new.notes
            == old.notes.filter(|n: NoteView| n.id != id@),
{
    law_one_event_per_mutation(old, cmd, s, new, ans, now, entity_id, event_id);
    assert(old.notes.take(old.notes.len() as int) =~= old.notes);
    assert(old.notes.push(new.notes.last()).take(old.notes.len() as int) =~= old.notes);
}

/// Claim paths conflict symmetrically, and a path conflicts with itself.
pub proof fn law_overlap_symmetric(a: Seq<char>, b: Seq<char>)
    ensures
        paths_overlap(a, b) == paths_overlap(b, a),
        paths_overlap(a, a),
{
}

/// A directory claim covers everything beneath it: a path conflicts with
/// every path that starts with it as a directory (`frontend/` with
/// `frontend/app.js`, and `frontend` too).
pub proof fn law_directory_covers_children(dir: Seq<char>, rest: Seq<char>)
    ensures
        paths_overlap(dir, dir_form(dir) + rest),
        paths_overlap(dir_form(dir) + rest, dir),
{
    assert((dir_form(dir) + rest).take(dir_form(dir).len() as int) =~= dir_form(dir));
}

/// Some active, unexpired claim at `now` overlaps `path`.
pub open spec fn live_overlap(claims: Seq<ClaimView>, path: Seq<char>, now: int) -> bool {
    exists|i: int| 0 <= i < claims.len() && claim_live(#[trigger] claims[i], now) && paths_overlap(claims[i].path, path)
}

proof fn lemma_conflicts_are_live_overlaps(claims: Seq<ClaimView>, path: Seq<char>, now: int)
    ensures
        conflicts_with(claims, path, now).len() > 0 <==> live_overlap(claims, path, now),
{
    let pred = |c: ClaimView| claim_live(c, now) && paths_overlap(c.path, path);
    if live_overlap(claims, path, now) {
        let i = choose|i: int| 0 <= i < claims.len() && claim_live(#[trigger] claims[i], now) && paths_overlap(claims[i].path, path);
        claims.lemma_filter_contains(pred, i);
    } else {
        assert(claims.all(|c: ClaimView| !pred(c)));
        claims.lemma_all_neg_filter_empty(pred);
    }
}

/// Only live claims block, and they block by containment: acquiring a valid
/// path with a valid time-to-live is refused as a conflict exactly when some
/// active, unexpired claim overlaps the path.  Expired and released claims
/// never block.  Otherwise the claim is granted (unless its expiry is beyond
/// what chrono holds), and it is the newest claim, active, owned by the
/// session's actor, expiring after the time-to-live.
pub proof fn law_acquire_conflict_rule(
    old: LedgerView,
    path: String,
    intent: Option<String>,
    ttl: String,
    s: Session,
    new: LedgerView,
    ans: Result<ReplyView, ErrorView>,
    now: i128,
    entity_id: Seq<char>,
    event_id: Seq<char>,
    p: Seq<char>,
    span: int,
)
    requires
        run_outcome(old, Command::Claim(ClaimCommand::Acquire { path, intent, ttl }), s, new, ans, now, entity_id, event_id),
        normalized(path@) == Ok::<Seq<char>, ErrorView>(p),
        ttl_outcome(ttl@) == Ok::<int, ErrorView>(span),
        !ttl_overflows(ttl@),
    ensures
        (ans matches Err(ErrorView::ClaimConflict(_))) <==> live_overlap(old.claims, p, now as int),
        ans is Ok <==> !live_overlap(old.claims, p, now as int) && instant_ok(now + span),
        ans matches Ok(ReplyView::ClaimAcquired(c)) ==> {
            &&& new.claims == old.claims.push(c)
            &&& c.path == p
            &&& c.owner == s.actor@
            &&& c.status == ClaimStatus::Active
            &&& c.acquired_at == now
            &&& c.expires_at == now + span
        },
{
    lemma_conflicts_are_live_overlaps(old.claims, p, now as int);
}

/// A granted claim blocks every overlapping acquire until it expires: after
/// a successful acquire, acquiring (with a valid time-to-live) any path that
/// overlaps the claimed one, before the claim's expiry, is refused as a
/// conflict and changes nothing.
pub proof fn law_granted_claim_blocks(
    l0: LedgerView,
    path: String,
    intent: Option<String>,
    ttl: String,
    s: Session,
    l1: LedgerView,
    c: ClaimView,
    now: i128,
    entity_id: Seq<char>,
    event_id: Seq<char>,
    path2: String,
    intent2: Option<String>,
    ttl2: String,
    s2: Session,
    l2: LedgerView,
    ans2: Result<ReplyView, ErrorView>,
    now2: i128,
    entity_id2: Seq<char>,
    event_id2: Seq<char>,
    q: Seq<char>,
)
    requires
        run_outcome(
            l0,
            Command::Claim(ClaimCommand::Acquire { path, intent, ttl }),
            s,
            l1,
            Ok(ReplyView::ClaimAcquired(c)),
            now,
            entity_id,
            event_id,
        ),
        run_outcome(
            l1,
            Command::Claim(ClaimCommand::Acquire { path: path2, intent: intent2, ttl: ttl2 }),
            s2,
            l2,
            ans2,
            now2,
            entity_id2,
            event_id2,
        ),
        normalized(path2@) == Ok::<Seq<char>, ErrorView>(q),
        paths_overlap(c.path, q),
        now2 < c.expires_at,
        ttl_outcome(ttl2@) is Ok,
        !ttl_overflows(ttl2@),
    ensures
        ans2 matches Err(ErrorView::ClaimConflict(_)),
        l2 == l1,
{
    let p = normalized(path@)->Ok_0;
    let span = ttl_outcome(ttl@)->Ok_0;
    law_acquire_conflict_rule(l0, path, intent, ttl, s, l1, Ok(ReplyView::ClaimAcquired(c)), now, entity_id, event_id, p, span);
    let n = l0.claims.len() as int;
    assert(l1.claims[n] == c);
    assert(claim_live(l1.claims[n], now2 as int) && paths_overlap(l1.claims[n].path, q));
    law_acquire_conflict_rule(l1, path2, intent2, ttl2, s2, l2, ans2, now2, entity_id2, event_id2, q, ttl_outcome(ttl2@)->Ok_0);
    law_one_event_per_mutation(l1, Command::Claim(ClaimCommand::Acquire { path: path2, intent: intent2, ttl: ttl2 }), s2, l2, ans2, now2, entity_id2, event_id2);
}

/// Releasing a claim ends it: after a successful release of `id`, no claim
/// with that id is live at any instant, so it blocks nothing and is listed
/// nowhere.
pub proof fn law_release_ends_claim(
    old: LedgerView,
    id: String,
    s: Session,
    new: LedgerView,
    ans: Result<ReplyView, ErrorView>,
    now: i128,
    entity_id: Seq<char>,
    event_id: Seq<char>,
)
    requires
        run_outcome(old, Command::Claim(ClaimCommand::Release { id }), s, new, ans, now, entity_id, event_id),
        ans is Ok,
    ensures
        forall|i: int, t: int|
            #![trigger claim_live(new.claims[i], t)]
            0 <= i < new.claims.len() && new.claims[i].id == id@ ==> !claim_live(new.claims[i], t),
{
}

/// Renewing a claim moves its heartbeat to now and its expiry to now plus
/// the time-to-live.
pub proof fn law_renew_extends(
    old: LedgerView,
    id: String,
    ttl: String,
    s: Session,
    new: LedgerView,
    ans: Result<ReplyView, ErrorView>,
    now: i128,
    entity_id: Seq<char>,
    event_id: Seq<char>,
    span: int,
)
    requires
        run_outcome(old, Command::Claim(ClaimCommand::Renew { id, ttl }), s, new, ans, now, entity_id, event_id),
        ttl_outcome(ttl@) == Ok::<int, ErrorView>(span),
        ans is Ok,
    ensures
        ans == Ok::<ReplyView, ErrorView>(ReplyView::ClaimRenewed { id: id@, expires_at: (now + span) as i128 }),
        now + span == (now + span) as i128,
        forall|i: int|
            0 <= i < new.claims.len() && (#[trigger] new.claims[i]).id == id@ && new.claims[i].status
                == ClaimStatus::Active ==> new.claims[i].heartbeat_at == now && new.claims[i].expires_at
                == now + span,
{
}

proof fn lemma_first_version_of_new(cs: Seq<ContractView>, c: ContractView, name: Seq<char>, version: Seq<char>)
    requires
        !version_taken(cs, name, version),
        c.name == name,
        c.version == version,
    ensures
        first_version(cs.push(c), name, version) == Some(c),
    decreases cs.len(),
{
    if cs.len() > 0 {
        assert(cs.push(c).drop_first() =~= cs.drop_first().push(c));
        assert(!(cs[0].name == name && cs[0].version == version));
        assert forall|i: int| 0 <= i < cs.drop_first().len() implies !((#[trigger] cs.drop_first()[i]).name == name
            && cs.drop_first()[i].version == version) by {
            assert(cs.drop_first()[i] == cs[i + 1]);
        }
        lemma_first_version_of_new(cs.drop_first(), c, name, version);
    }
}

/// A recorded contract version reads back: after `contract set` records a
/// contract, `contract get` of that name and version answers exactly it.
pub proof fn law_recorded_contract_reads_back(
    old: LedgerView,
    name: String,
    version: String,
    format: Option<String>,
    body: Option<String>,
    body_file: Option<String>,
    owner: Option<String>,
    consumer: Vec<String>,
    s: Session,
    new: LedgerView,
    c: ContractView,
    now: i128,
    entity_id: Seq<char>,
    event_id: Seq<char>,
)
    requires
        run_outcome(
            old,
            Command::Contract(ContractCommand::Record { name, version, format, body, body_file, owner, consumer }),
            s,
            new,
            Ok(ReplyView::ContractRecorded(c)),
            now,
            entity_id,
            event_id,
        ),
    ensures
        get_contract_spec(new.contracts, name@, Some(version@)) == Ok::<ContractView, ErrorView>(c),
{
    lemma_first_version_of_new(old.contracts, c, name@, version@);
}

/// Superseding keeps what was agreed: the replacement decision is active,
/// carries the participants and tags of the decision it replaces, and every
/// decision under the replaced id is marked superseded by it.  A decision is
/// superseded once only.
pub proof fn law_supersede_keeps_participants_and_tags(
    old: LedgerView,
    id: String,
    title: String,
    body: Option<String>,
    body_file: Option<String>,
    s: Session,
    new: LedgerView,
    ans: Result<ReplyView, ErrorView>,
    now: i128,
    entity_id: Seq<char>,
    event_id: Seq<char>,
)
    requires
        run_outcome(
            old,
            Command::Decision(DecisionCommand::Supersede { id, title, body, body_file }),
            s,
            new,
            ans,
            now,
            entity_id,
            event_id,
        ),
    ensures
        ans matches Ok(ReplyView::DecisionSuperseded(d)) ==> {
            &&& first_decision(old.decisions, id@) matches Some(o)
            &&& o.status == DecisionStatus::Active
            &&& d.participants == o.participants
            &&& d.tags == o.tags
            &&& d.status == DecisionStatus::Active
            &&& d.title == title@
            &&& new.decisions.last() == d
            &&& forall|i: int|
                0 <= i < old.decisions.len() && (#[trigger] new.decisions[i]).id == id@ ==> new.decisions[i].status
                    == DecisionStatus::Superseded && new.decisions[i].superseded_by == Some(d.id)
        },
        first_decision(old.decisions, id@) matches Some(o) && o.status == DecisionStatus::Superseded
            ==> ans == Err::<ReplyView, ErrorView>(
            ErrorView::Validation("Decision "@ + id@ + " is already superseded"@),
        ),
{
}

/// `init` can be run again and again: it always succeeds, leaves every
/// table as it was, and only records another `workspace.initialized` event.
pub proof fn law_init_idempotent(
    old: LedgerView,
    s: Session,
    new: LedgerView,
    ans: Result<ReplyView, ErrorView>,
    now: i128,
    entity_id: Seq<char>,
    event_id: Seq<char>,
)
    requires
        run_outcome(old, Command::Init, s, new, ans, now, entity_id, event_id),
    ensures
        ans == Ok::<ReplyView, ErrorView>(ReplyView::Initialized),
        new.claims == old.claims,
        new.tasks == old.tasks,
        new.notes == old.notes,
        new.decisions == old.decisions,
        new.contracts == old.contracts,
        one_event_appended(old, new, now, s.repo_id@),
        new.events.last().kind == "workspace.initialized"@,
{
    law_one_event_per_mutation(old, Command::Init, s, new, ans, now, entity_id, event_id);
}

proof fn lemma_first_event_of_new(es: Seq<EventView>, e: EventView)
    requires
        forall|i: int| 0 <= i < es.len() ==> (#[trigger] es[i]).id != e.id,
    ensures
        first_event(es.push(e), e.id) == Some(e),
    decreases es.len(),
{
    if es.len() > 0 {
        assert(es.push(e).drop_first() =~= es.drop_first().push(e));
        assert(es[0].id != e.id);
        assert forall|i: int| 0 <= i < es.drop_first().len() implies (#[trigger] es.drop_first()[i]).id != e.id by {
            assert(es.drop_first()[i] == es[i + 1]);
        }
        lemma_first_event_of_new(es.drop_first(), e);
    }
}

/// Every change is on the record: after a command that writes, `events
/// show` of the event it appended answers exactly that event (event ids
/// being fresh).
pub proof fn law_appended_event_reads_back(
    old: LedgerView,
    cmd: Command,
    s: Session,
    new: LedgerView,
    ans: Result<ReplyView, ErrorView>,
    now: i128,
    entity_id: Seq<char>,
    event_id: Seq<char>,
)
    requires
        run_outcome(old, cmd, s, new, ans, now, entity_id, event_id),
        writes(cmd),
        ans is Ok,
        forall|i: int| 0 <= i < old.events.len() ==> (#[trigger] old.events[i]).id != new.events.last().id,
    ensures
        show_event_spec(new.events, new.events.last().id) == Ok::<EventView, ErrorView>(new.events.last()),
{
    law_one_event_per_mutation(old, cmd, s, new, ans, now, entity_id, event_id);
    assert(new.events =~= old.events.push(new.events.last()));
    lemma_first_event_of_new(old.events, new.events.last());
}

proof fn lemma_first_decision_of_new(ds: Seq<DecisionView>, d: DecisionView)
    requires
        forall|i: int| 0 <= i < ds.len() ==> (#[trigger] ds[i]).id != d.id,
    ensures
        first_decision(ds.push(d), d.id) == Some(d),
    decreases ds.len(),
{
    if ds.len() > 0 {
        assert(ds.push(d).drop_first() =~= ds.drop_first().push(d));
        assert(ds[0].id != d.id);
        assert forall|i: int| 0 <= i < ds.drop_first().len() implies (#[trigger] ds.drop_first()[i]).id != d.id by {
            assert(ds.drop_first()[i] == ds[i + 1]);
        }
        lemma_first_decision_of_new(ds.drop_first(), d);
    }
}

/// A recorded decision reads back: after `decision add` records a
/// decision under a fresh id, `decision show` of that id answers exactly it,
/// with the title, body, tags and participants given.
pub proof fn law_recorded_decision_reads_back(
    old: LedgerView,
    title: String,
    body: Option<String>,
    body_file: Option<String>,
    tag: Vec<String>,
    participant: Vec<String>,
    s: Session,
    new: LedgerView,
    d: DecisionView,
    now: i128,
    entity_id: Seq<char>,
    event_id: Seq<char>,
)
    requires
        run_outcome(
            old,
            Command::Decision(DecisionCommand::Add { title, body, body_file, tag, participant }),
            s,
            new,
            Ok(ReplyView::DecisionAdded(d)),
            now,
            entity_id,
            event_id,
        ),
        forall|i: int| 0 <= i < old.decisions.len() ==> (#[trigger] old.decisions[i]).id != d.id,
    ensures
        show_decision_spec(new.decisions, d.id) == Ok::<DecisionView, ErrorView>(d),
        d.title == title@,
        d.tags == crate::model::texts(tag@),
        d.participants == crate::model::texts(participant@),
        d.status == DecisionStatus::Active,
{
    lemma_first_decision_of_new(old.decisions, d);
}

/// `claim list` shows exactly the live claims: every claim it shows is a
/// claim of the table that is active and unexpired, and every such claim is
/// shown.
pub proof fn law_claim_list_shows_live_claims(claims: Seq<ClaimView>, now: int)
    ensures
        forall|k: int|
            0 <= k < claim_listing(claims, now).len() ==> claims.contains(#[trigger] claim_listing(claims, now)[k])
                && claim_live(claim_listing(claims, now)[k], now),
        forall|j: int|
            0 <= j < claims.len() && claim_live(claims[j], now) ==> #[trigger] claim_listing(claims, now).contains(
                claims[j],
            ),
{
    let keys = newest_acquired(claims);
    let chosen = live_flags(claims, now);
    lemma_listing_members(claims, keys, chosen);
    assert forall|k: int| 0 <= k < claim_listing(claims, now).len() implies claims.contains(
        #[trigger] claim_listing(claims, now)[k],
    ) && claim_live(claim_listing(claims, now)[k], now) by {
        let j = crate::ranking::ranking(keys, chosen)[k];
        assert(crate::ranking::pick(claims, crate::ranking::ranking(keys, chosen))[k] == claims[j]);
        assert(chosen[j]);
    }
}

/// `task list` shows exactly the active tasks (of the assignee, when one is
/// given): every task it shows is open or taken, and every such task is
/// shown.
pub proof fn law_task_list_shows_active_tasks(tasks: Seq<TaskView>, assignee: Option<Seq<char>>)
    ensures
        forall|k: int|
            0 <= k < task_listing(tasks, assignee).len() ==> tasks.contains(#[trigger] task_listing(tasks, assignee)[k])
                && task_listed(task_listing(tasks, assignee)[k], assignee),
        forall|j: int|
            0 <= j < tasks.len() && task_listed(tasks[j], assignee) ==> #[trigger] task_listing(tasks, assignee).contains(
                tasks[j],
            ),
{
    let keys = newest_created(tasks);
    let chosen = listed_flags(tasks, assignee);
    lemma_listing_members(tasks, keys, chosen);
    assert forall|k: int| 0 <= k < task_listing(tasks, assignee).len() implies tasks.contains(
        #[trigger] task_listing(tasks, assignee)[k],
    ) && task_listed(task_listing(tasks, assignee)[k], assignee) by {
        let j = crate::ranking::ranking(keys, chosen)[k];
        assert(crate::ranking::pick(tasks, crate::ranking::ranking(keys, chosen))[k] == tasks[j]);
        assert(chosen[j]);
    }
}

/// A granted claim is listed by `claim list` until it expires.
pub proof fn law_acquired_claim_is_listed(
    old: LedgerView,
    path: String,
    intent: Option<String>,
    ttl: String,
    s: Session,
    new: LedgerView,
    c: ClaimView,
    now: i128,
    entity_id: Seq<char>,
    event_id: Seq<char>,
    t: int,
)
    requires
        run_outcome(
            old,
            Command::Claim(ClaimCommand::Acquire { path, intent, ttl }),
            s,
            new,
            Ok(ReplyView::ClaimAcquired(c)),
            now,
            entity_id,
            event_id,
        ),
        t < c.expires_at,
    ensures
        claim_listing(new.claims, t).contains(c),
{
    law_claim_list_shows_live_claims(new.claims, t);
    assert(new.claims[old.claims.len() as int] == c);
}

/// A released claim leaves `claim list`: after releasing `id`, no listed
/// claim, at any instant, has that id.
pub proof fn law_released_claim_is_not_listed(
    old: LedgerView,
    id: String,
    s: Session,
    new: LedgerView,
    ans: Result<ReplyView, ErrorView>,
    now: i128,
    entity_id: Seq<char>,
    event_id: Seq<char>,
    t: int,
)
    requires
        run_outcome(old, Command::Claim(ClaimCommand::Release { id }), s, new, ans, now, entity_id, event_id),
        ans is Ok,
    ensures
        forall|k: int| 0 <= k < claim_listing(new.claims, t).len() ==> (#[trigger] claim_listing(new.claims, t)[k]).id != id@,
{
    law_claim_list_shows_live_claims(new.claims, t);
    law_release_ends_claim(old, id, s, new, ans, now, entity_id, event_id);
    assert forall|k: int| 0 <= k < claim_listing(new.claims, t).len() implies (#[trigger] claim_listing(new.claims, t)[k]).id
        != id@ by {
        let c = claim_listing(new.claims, t)[k];
        assert(new.claims.contains(c));
        let j = choose|j: int| 0 <= j < new.claims.len() && new.claims[j] == c;
        assert(claim_live(new.claims[j], t));
    }
}

/// A finished task leaves `task list`: after `task cancel`, no listed task
/// has the canceled id; after `task done`, none of the tasks it completed is
/// listed.
pub proof fn law_finished_task_is_not_listed(
    old: LedgerView,
    cmd: Command,
    s: Session,
    new: LedgerView,
    ans: Result<ReplyView, ErrorView>,
    now: i128,
    entity_id: Seq<char>,
    event_id: Seq<char>,
    assignee: Option<Seq<char>>,
)
    requires
        run_outcome(old, cmd, s, new, ans, now, entity_id, event_id),
        ans is Ok,
    ensures
        cmd matches Command::Task(TaskCommand::Cancel { id }) ==> forall|k: int|
            0 <= k < task_listing(new.tasks, assignee).len() ==> (#[trigger] task_listing(new.tasks, assignee)[k]).id
                != id@,
        cmd matches Command::Task(TaskCommand::Done { id }) ==> forall|j: int|
            0 <= j < old.tasks.len() && (#[trigger] old.tasks[j]).id == id@ && old.tasks[j].status
                == TaskStatus::Taken ==> !task_listing(new.tasks, assignee).contains(new.tasks[j]),
{
    law_task_list_shows_active_tasks(new.tasks, assignee);
    match cmd {
        Command::Task(TaskCommand::Cancel { id }) => {
            assert forall|k: int| 0 <= k < task_listing(new.tasks, assignee).len() implies (#[trigger] task_listing(
                new.tasks,
                assignee,
            )[k]).id != id@ by {
                let t = task_listing(new.tasks, assignee)[k];
                assert(new.tasks.contains(t));
                let j = choose|j: int| 0 <= j < new.tasks.len() && new.tasks[j] == t;
                assert(task_active(new.tasks[j]));
            }
        },
        Command::Task(TaskCommand::Done { id }) => {
            assert forall|j: int|
                0 <= j < old.tasks.len() && (#[trigger] old.tasks[j]).id == id@ && old.tasks[j].status
                    == TaskStatus::Taken implies !task_listing(new.tasks, assignee).contains(new.tasks[j]) by {
                assert(new.tasks[j].status == TaskStatus::Done);
                if task_listing(new.tasks, assignee).contains(new.tasks[j]) {
                    let k = choose|k: int| 0 <= k < task_listing(new.tasks, assignee).len() && task_listing(new.tasks, assignee)[k] == new.tasks[j];
                    assert(task_listed(task_listing(new.tasks, assignee)[k], assignee));
                }
            }
        },
        _ => {},
    }
}

/// `status --for a` and `context --for a` narrow the picture to the actor:
/// the claims shown are exactly the actor's live claims and the tasks shown
/// exactly the actor's open and taken tasks, while the decisions, contracts
/// and hazards are the shared ones that everyone is shown.
pub proof fn law_actor_filter(
    mine: Overview,
    everyone: Overview,
    l: LedgerView,
    a: Seq<char>,
    repo: Seq<char>,
    repo2: Seq<char>,
    now: int,
    limit: int,
)
    requires
        overview_matches(mine, l, Some(a), repo, now, limit),
        overview_matches(everyone, l, None, repo2, now, limit),
    ensures
        forall|k: int|
            0 <= k < views(mine.claims@).len() ==> {
                let c = #[trigger] views(mine.claims@)[k];
                &&& l.claims.contains(c)
                &&& c.owner == a
                &&& claim_live(c, now)
            },
        forall|j: int|
            0 <= j < l.claims.len() && claim_live(l.claims[j], now) && l.claims[j].owner == a
                ==> #[trigger] views(mine.claims@).contains(l.claims[j]),
        forall|k: int|
            0 <= k < views(mine.tasks@).len() ==> {
                let t = #[trigger] views(mine.tasks@)[k];
                &&& l.tasks.contains(t)
                &&& t.assigned_to == a
                &&& task_active(t)
            },
        forall|j: int|
            0 <= j < l.tasks.len() && task_active(l.tasks[j]) && l.tasks[j].assigned_to == a
                ==> #[trigger] views(mine.tasks@).contains(l.tasks[j]),
        views(mine.decisions@) == views(everyone.decisions@),
        views(mine.contracts@) == views(everyone.contracts@),
        views(mine.hazards@) == views(everyone.hazards@),
{
    let keys = soonest_expiring(l.claims);
    let chosen = shown_flags(l.claims, Some(a), now);
    lemma_listing_members(l.claims, keys, chosen);
    assert forall|k: int| 0 <= k < views(mine.claims@).len() implies {
        let c = #[trigger] views(mine.claims@)[k];
        &&& l.claims.contains(c)
        &&& c.owner == a
        &&& claim_live(c, now)
    } by {
        let j = crate::ranking::ranking(keys, chosen)[k];
        assert(crate::ranking::pick(l.claims, crate::ranking::ranking(keys, chosen))[k] == l.claims[j]);
        assert(chosen[j]);
        assert(claim_shown(l.claims[j], Some(a), now));
    }
    assert forall|j: int|
        0 <= j < l.claims.len() && claim_live(l.claims[j], now) && l.claims[j].owner == a implies #[trigger] views(
            mine.claims@,
        ).contains(l.claims[j]) by {
        assert(chosen[j]);
    }
    law_task_list_shows_active_tasks(l.tasks, Some(a));
}

/// `claim list` is newest first: a claim listed before another was
/// acquired no earlier.
pub proof fn law_claim_list_newest_first(claims: Seq<ClaimView>, now: int)
    ensures
        forall|k: int, m: int|
            0 <= k < m < claim_listing(claims, now).len() ==> (#[trigger] claim_listing(claims, now)[k]).acquired_at
                >= (#[trigger] claim_listing(claims, now)[m]).acquired_at,
{
    let keys = newest_acquired(claims);
    let chosen = live_flags(claims, now);
    lemma_listing_members(claims, keys, chosen);
    let r = ranking(keys, chosen);
    assert forall|k: int, m: int| 0 <= k < m < claim_listing(claims, now).len() implies (#[trigger] claim_listing(
        claims,
        now,
    )[k]).acquired_at >= (#[trigger] claim_listing(claims, now)[m]).acquired_at by {
        assert(pick(claims, r)[k] == claims[r[k]]);
        assert(pick(claims, r)[m] == claims[r[m]]);
        assert(goes_before_at(keys, r, k, m));
        lemma_stamp_order(acquired_stamps(claims), r[k], r[m]);
    }
}

/// Rows `r[k]` and `r[m]` go in that order.
spec fn goes_before_at(keys: Seq<crate::ranking::RankKey>, r: Seq<int>, k: int, m: int) -> bool {
    crate::ranking::goes_before(keys, r[k], r[m])
}

proof fn lemma_hazard_kind(k: NoteKind)
    ensures
        kind_text(k) == "hazard"@ ==> k == NoteKind::Hazard,
{
    reveal_strlit("hazard");
    reveal_strlit("handoff");
    reveal_strlit("observation");
    assert("hazard"@.len() == 6);
    assert("handoff"@.len() == 7);
    assert("observation"@.len() == 11);
}

/// The hazards section of `status` and `context` holds hazard notes only,
/// newest first, at most `limit` of them; a hazard note is left out only
/// when the section is full of hazard notes at least as new as it.
pub proof fn law_hazards_are_the_newest_hazard_notes(notes: Seq<NoteView>, limit: int)
    requires
        0 <= limit,
    ensures
        hazards_spec(notes, limit).len() <= limit,
        forall|k: int|
            0 <= k < hazards_spec(notes, limit).len() ==> notes.contains(#[trigger] hazards_spec(notes, limit)[k])
                && hazards_spec(notes, limit)[k].kind == NoteKind::Hazard,
        forall|k: int, m: int|
            0 <= k < m < hazards_spec(notes, limit).len() ==> (#[trigger] hazards_spec(notes, limit)[k]).created_at
                >= (#[trigger] hazards_spec(notes, limit)[m]).created_at,
        forall|j: int|
            0 <= j < notes.len() && notes[j].kind == NoteKind::Hazard && !(#[trigger] hazards_spec(notes, limit).contains(
                notes[j],
            )) ==> hazards_spec(notes, limit).len() == limit && forall|k: int|
                0 <= k < limit ==> hazards_spec(notes, limit)[k].created_at >= notes[j].created_at,
{
    let keys = stamp_keys(newest_noted(notes));
    let chosen = kind_flags(notes, Some("hazard"@));
    lemma_listing_members(notes, keys, chosen);
    let r = ranking(keys, chosen);
    let l = note_listing(notes, Some("hazard"@));
    let h = hazards_spec(notes, limit);
    assert(h == first_n(l, Some(limit)));
    assert(l == pick(notes, r));
    assert forall|k: int| 0 <= k < h.len() implies h[k] == l[k] by {}
    assert forall|k: int| 0 <= k < h.len() implies notes.contains(#[trigger] h[k]) && h[k].kind == NoteKind::Hazard by {
        assert(h[k] == l[k]);
        assert(pick(notes, r)[k] == notes[r[k]]);
        assert(chosen[r[k]]);
        lemma_hazard_kind(notes[r[k]].kind);
    }
    assert forall|k: int, m: int| 0 <= k < m < h.len() implies (#[trigger] h[k]).created_at >= (#[trigger] h[m]).created_at by {
        assert(pick(notes, r)[k] == notes[r[k]]);
        assert(pick(notes, r)[m] == notes[r[m]]);
        assert(goes_before_at(keys, r, k, m));
        lemma_stamp_order(newest_noted(notes), r[k], r[m]);
    }
    assert forall|j: int|
        0 <= j < notes.len() && notes[j].kind == NoteKind::Hazard && !(#[trigger] h.contains(notes[j])) implies h.len()
            == limit && forall|k: int| 0 <= k < limit ==> h[k].created_at >= notes[j].created_at by {
        reveal_strlit("hazard");
        assert(chosen[j]);
        assert(l.contains(notes[j]));
        let p = choose|p: int| 0 <= p < l.len() && l[p] == notes[j];
        if l.len() <= limit {
            assert(h == l);
            assert(h[p] == notes[j]);
        } else {
            if p < limit {
                assert(h[p] == notes[j]);
            }
            assert forall|k: int| 0 <= k < limit implies h[k].created_at >= notes[j].created_at by {
                assert(pick(notes, r)[k] == notes[r[k]]);
                assert(pick(notes, r)[p] == notes[r[p]]);
                assert(goes_before_at(keys, r, k, p));
                lemma_stamp_order(newest_noted(notes), r[k], r[p]);
            }
        }
    }
}

/// `status` and `context` show only hazard notes in their hazards section.
pub proof fn law_picture_hazards_are_hazard_notes(
    o: Overview,
    l: LedgerView,
    actor: Option<Seq<char>>,
    repo: Seq<char>,
    now: int,
    limit: int,
)
    requires
        overview_matches(o, l, actor, repo, now, limit),
        0 <= limit,
    ensures
        forall|k: int|
            0 <= k < views(o.hazards@).len() ==> l.notes.contains(#[trigger] views(o.hazards@)[k]) && views(
                o.hazards@,
            )[k].kind == NoteKind::Hazard,
        views(o.hazards@).len() <= limit,
{
    law_hazards_are_the_newest_hazard_notes(l.notes, limit);
}

/// `task cancel` ends every open or taken task with the id, whoever took
/// it: when one exists, the answer is that the task is canceled and each
/// such task is canceled; when none does, the command is refused as not
/// found and changes nothing.
pub proof fn law_cancel_ends_open_and_taken_tasks(
    old: LedgerView,
    id: String,
    s: Session,
    new: LedgerView,
    ans: Result<ReplyView, ErrorView>,
    now: i128,
    entity_id: Seq<char>,
    event_id: Seq<char>,
)
    requires
        run_outcome(old, Command::Task(TaskCommand::Cancel { id }), s, new, ans, now, entity_id, event_id),
    ensures
        new.tasks.len() == old.tasks.len(),
        (exists|j: int| 0 <= j < old.tasks.len() && (#[trigger] old.tasks[j]).id == id@ && (old.tasks[j].status
            == TaskStatus::Open || old.tasks[j].status == TaskStatus::Taken)) ==> ans == Ok::<ReplyView, ErrorView>(
            ReplyView::TaskMoved { id: id@, status: TaskStatus::Canceled },
        ),
        forall|j: int|
            0 <= j < old.tasks.len() && (#[trigger] old.tasks[j]).id == id@ && (old.tasks[j].status == TaskStatus::Open
                || old.tasks[j].status == TaskStatus::Taken) ==> new.tasks[j].status == TaskStatus::Canceled,
        (forall|j: int|
            0 <= j < old.tasks.len() && (#[trigger] old.tasks[j]).id == id@ ==> old.tasks[j].status != TaskStatus::Open
                && old.tasks[j].status != TaskStatus::Taken) ==> ans is Err && new == old,
{
}

/// Releasing a claim needs only that it is active, not that the speaker
/// owns it: when an active claim has the id, any actor's release answers
/// that it is released and marks it released now; when none has, the
/// command is refused as not found and changes nothing.
pub proof fn law_any_actor_releases_an_active_claim(
    old: LedgerView,
    id: String,
    s: Session,
    new: LedgerView,
    ans: Result<ReplyView, ErrorView>,
    now: i128,
    entity_id: Seq<char>,
    event_id: Seq<char>,
)
    requires
        run_outcome(old, Command::Claim(ClaimCommand::Release { id }), s, new, ans, now, entity_id, event_id),
    ensures
        new.claims.len() == old.claims.len(),
        (exists|j: int| 0 <= j < old.claims.len() && (#[trigger] old.claims[j]).id == id@ && old.claims[j].status
            == ClaimStatus::Active) ==> ans == Ok::<ReplyView, ErrorView>(ReplyView::ClaimReleased(id@)),
        forall|j: int|
            0 <= j < old.claims.len() && (#[trigger] old.claims[j]).id == id@ && old.claims[j].status
                == ClaimStatus::Active ==> new.claims[j].status == ClaimStatus::Released && new.claims[j].released_at
                == Some(now) && new.claims[j].owner == old.claims[j].owner,
        (forall|j: int|
            0 <= j < old.claims.len() && (#[trigger] old.claims[j]).id == id@ ==> old.claims[j].status
                != ClaimStatus::Active) ==> ans is Err && new == old,
{
}

/// A recorded contract is owned by the `--owner` given, and by the actor
/// who records it only when none is given; it keeps the name, version and
/// consumers given.
pub proof fn law_record_contract_owner(
    l: LedgerView,
    actor: Seq<char>,
    name: Seq<char>,
    version: Seq<char>,
    format: Option<Seq<char>>,
    body: Result<Seq<char>, ErrorView>,
    rejection: Option<Seq<char>>,
    owner: Option<Seq<char>>,
    consumers: Seq<Seq<char>>,
    repo_id: Seq<char>,
    now: i128,
    contract_id: Seq<char>,
    event_id: Seq<char>,
)
    ensures
        record_contract_spec(l, actor, name, version, format, body, rejection, owner, consumers, repo_id, now, contract_id, event_id).1 matches Ok(c) ==> {
            &&& c.owner == (match owner {
                Some(o) => o,
                None => actor,
            })
            &&& c.name == name
            &&& c.version == version
            &&& c.consumers == consumers
            &&& c.created_at == now
        },
{
}

/// `contract set` records the `--owner` given, or the actor when none is.
pub proof fn law_contract_set_owner(
    old: LedgerView,
    name: String,
    version: String,
    format: Option<String>,
    body: Option<String>,
    body_file: Option<String>,
    owner: Option<String>,
    consumer: Vec<String>,
    s: Session,
    new: LedgerView,
    c: ContractView,
    now: i128,
    entity_id: Seq<char>,
    event_id: Seq<char>,
)
    requires
        run_outcome(
            old,
            Command::Contract(ContractCommand::Record { name, version, format, body, body_file, owner, consumer }),
            s,
            new,
            Ok(ReplyView::ContractRecorded(c)),
            now,
            entity_id,
            event_id,
        ),
    ensures
        c.owner == (match owner {
            Some(o) => o@,
            None => s.actor@,
        }),
        new.contracts.last() == c,
{
}

/// `task list` is newest first: a task listed before another was created
/// no earlier.
pub proof fn law_task_list_newest_first(tasks: Seq<TaskView>, assignee: Option<Seq<char>>)
    ensures
        forall|k: int, m: int|
            0 <= k < m < task_listing(tasks, assignee).len() ==> (#[trigger] task_listing(tasks, assignee)[k]).created_at
                >= (#[trigger] task_listing(tasks, assignee)[m]).created_at,
{
    let keys = newest_created(tasks);
    let chosen = listed_flags(tasks, assignee);
    lemma_listing_members(tasks, keys, chosen);
    let r = ranking(keys, chosen);
    assert forall|k: int, m: int| 0 <= k < m < task_listing(tasks, assignee).len() implies (#[trigger] task_listing(
        tasks,
        assignee,
    )[k]).created_at >= (#[trigger] task_listing(tasks, assignee)[m]).created_at by {
        assert(pick(tasks, r)[k] == tasks[r[k]]);
        assert(pick(tasks, r)[m] == tasks[r[m]]);
        assert(goes_before_at(keys, r, k, m));
        lemma_stamp_order(created_stamps(tasks), r[k], r[m]);
    }
}

/// `note list` shows exactly the notes of the kind asked for (every note
/// when none is), newest first.
pub proof fn law_note_list_filters_by_kind(notes: Seq<NoteView>, kind: Option<Seq<char>>)
    ensures
        forall|k: int|
            0 <= k < note_listing(notes, kind).len() ==> notes.contains(#[trigger] note_listing(notes, kind)[k])
                && match kind {
                Some(x) => kind_text(note_listing(notes, kind)[k].kind) == x,
                None => true,
            },
        forall|j: int|
            0 <= j < notes.len() && match kind {
                Some(x) => kind_text(notes[j].kind) == x,
                None => true,
            } ==> #[trigger] note_listing(notes, kind).contains(notes[j]),
        forall|k: int, m: int|
            0 <= k < m < note_listing(notes, kind).len() ==> (#[trigger] note_listing(notes, kind)[k]).created_at
                >= (#[trigger] note_listing(notes, kind)[m]).created_at,
{
    let keys = stamp_keys(newest_noted(notes));
    let chosen = kind_flags(notes, kind);
    lemma_listing_members(notes, keys, chosen);
    let r = ranking(keys, chosen);
    assert forall|k: int| 0 <= k < note_listing(notes, kind).len() implies notes.contains(
        #[trigger] note_listing(notes, kind)[k],
    ) && match kind {
        Some(x) => kind_text(note_listing(notes, kind)[k].kind) == x,
        None => true,
    } by {
        assert(pick(notes, r)[k] == notes[r[k]]);
        assert(chosen[r[k]]);
        assert(note_listed(notes[r[k]], kind));
    }
    assert forall|j: int|
        0 <= j < notes.len() && match kind {
            Some(x) => kind_text(notes[j].kind) == x,
            None => true,
        } implies #[trigger] note_listing(notes, kind).contains(notes[j]) by {
        assert(chosen[j]);
    }
    assert forall|k: int, m: int| 0 <= k < m < note_listing(notes, kind).len() implies (#[trigger] note_listing(
        notes,
        kind,
    )[k]).created_at >= (#[trigger] note_listing(notes, kind)[m]).created_at by {
        assert(pick(notes, r)[k] == notes[r[k]]);
        assert(pick(notes, r)[m] == notes[r[m]]);
        assert(goes_before_at(keys, r, k, m));
        lemma_stamp_order(newest_noted(notes), r[k], r[m]);
    }
}

/// `decision list` shows every decision, newest first.
pub proof fn law_decision_list_newest_first(ds: Seq<DecisionView>)
    ensures
        forall|j: int| 0 <= j < ds.len() ==> #[trigger] decision_listing(ds).contains(ds[j]),
        forall|k: int, m: int|
            0 <= k < m < decision_listing(ds).len() ==> (#[trigger] decision_listing(ds)[k]).created_at
                >= (#[trigger] decision_listing(ds)[m]).created_at,
{
    let keys = stamp_keys(decision_stamps(ds));
    let chosen = all_flags(ds);
    lemma_listing_members(ds, keys, chosen);
    let r = ranking(keys, chosen);
    assert forall|j: int| 0 <= j < ds.len() implies #[trigger] decision_listing(ds).contains(ds[j]) by {
        assert(chosen[j]);
    }
    assert forall|k: int, m: int| 0 <= k < m < decision_listing(ds).len() implies (#[trigger] decision_listing(ds)[k]).created_at
        >= (#[trigger] decision_listing(ds)[m]).created_at by {
        assert(pick(ds, r)[k] == ds[r[k]]);
        assert(pick(ds, r)[m] == ds[r[m]]);
        assert(goes_before_at(keys, r, k, m));
        lemma_stamp_order(decision_stamps(ds), r[k], r[m]);
    }
}

/// `events list` shows only events at or after `since` (by their RFC 3339
/// text), newest first, at most `limit` of them.
pub proof fn law_event_list_filters_and_orders(events: Seq<EventView>, since: Option<Seq<char>>, limit: usize)
    ensures
        limit <= i64::MAX ==> event_listing(events, since, limit).len() <= limit,
        forall|k: int|
            0 <= k < event_listing(events, since, limit).len() ==> events.contains(
                #[trigger] event_listing(events, since, limit)[k],
            ) && event_listed(event_listing(events, since, limit)[k], since),
        forall|k: int, m: int|
            0 <= k < m < event_listing(events, since, limit).len() ==> (#[trigger] event_listing(events, since, limit)[k]).created_at
                >= (#[trigger] event_listing(events, since, limit)[m]).created_at,
{
    let keys = stamp_keys(event_stamps(events));
    let chosen = since_flags(events, since);
    lemma_listing_members(events, keys, chosen);
    let r = ranking(keys, chosen);
    let full = pick(events, r);
    let e = event_listing(events, since, limit);
    assert(e == first_n(full, store_limit(limit)));
    assert forall|k: int| 0 <= k < e.len() implies e[k] == full[k] by {}
    assert forall|k: int| 0 <= k < e.len() implies events.contains(#[trigger] e[k]) && event_listed(e[k], since) by {
        assert(e[k] == full[k]);
        assert(full[k] == events[r[k]]);
        assert(chosen[r[k]]);
    }
    assert forall|k: int, m: int| 0 <= k < m < e.len() implies (#[trigger] e[k]).created_at >= (#[trigger] e[m]).created_at by {
        assert(full[k] == events[r[k]]);
        assert(full[m] == events[r[m]]);
        assert(goes_before_at(keys, r, k, m));
        lemma_stamp_order(event_stamps(events), r[k], r[m]);
    }
}

/// `task take` and `task done` move a task one step: `take` succeeds
/// exactly when a task with the id is open, and takes it; `done` succeeds
/// exactly when one is taken, and completes it.  Otherwise the command is
/// refused as not found and changes nothing.
pub proof fn law_take_and_done_step(
    old: LedgerView,
    cmd: Command,
    s: Session,
    new: LedgerView,
    ans: Result<ReplyView, ErrorView>,
    now: i128,
    entity_id: Seq<char>,
    event_id: Seq<char>,
)
    requires
        run_outcome(old, cmd, s, new, ans, now, entity_id, event_id),
    ensures
        cmd matches Command::Task(TaskCommand::Take { id }) ==> {
            &&& new.tasks.len() == old.tasks.len()
            &&& (exists|j: int| 0 <= j < old.tasks.len() && (#[trigger] old.tasks[j]).id == id@ && old.tasks[j].status
                == TaskStatus::Open) ==> ans == Ok::<ReplyView, ErrorView>(
                ReplyView::TaskMoved { id: id@, status: TaskStatus::Taken },
            )
            &&& forall|j: int|
                0 <= j < old.tasks.len() && (#[trigger] old.tasks[j]).id == id@ && old.tasks[j].status == TaskStatus::Open
                    ==> new.tasks[j].status == TaskStatus::Taken
            &&& (forall|j: int| 0 <= j < old.tasks.len() && (#[trigger] old.tasks[j]).id == id@ ==> old.tasks[j].status
                != TaskStatus::Open) ==> ans is Err && new == old
        },
        cmd matches Command::Task(TaskCommand::Done { id }) ==> {
            &&& new.tasks.len() == old.tasks.len()
            &&& (exists|j: int| 0 <= j < old.tasks.len() && (#[trigger] old.tasks[j]).id == id@ && old.tasks[j].status
                == TaskStatus::Taken) ==> ans == Ok::<ReplyView, ErrorView>(
                ReplyView::TaskMoved { id: id@, status: TaskStatus::Done },
            )
            &&& forall|j: int|
                0 <= j < old.tasks.len() && (#[trigger] old.tasks[j]).id == id@ && old.tasks[j].status == TaskStatus::Taken
                    ==> new.tasks[j].status == TaskStatus::Done
            &&& (forall|j: int| 0 <= j < old.tasks.len() && (#[trigger] old.tasks[j]).id == id@ ==> old.tasks[j].status
                != TaskStatus::Taken) ==> ans is Err && new == old
        },
{
}

} // verus!
