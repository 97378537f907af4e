//! Running one command of the command line against the ledger.
use vstd::prelude::*;
use crate::claims::{self, claim_handled};
use crate::cli::{opt_string, Cli, Command};
use crate::clock::{ulid_shaped, MAX_INSTANT_NS};
use crate::context::{
    context_text, context_text_spec, overview_matches, show_context, show_status, status_text,
    status_text_spec,
};
use crate::contracts::{self, contract_step};
use crate::decisions::{self, decision_step};
use crate::error::{ErrorView, LatchError};
use crate::events::{self, events_step, init_spec};
use crate::journal::{fresh, Fresh};
use crate::model::{Ledger, LedgerView};
use crate::notes::{self, note_step};
use crate::reply::{answer, Reply, ReplyView, Session};
use crate::tasks::{self, task_step};
use crate::text::join3;
use crate::workspace::{well_timed, workspace_file, workspace_path};

verus! {

/// The message that a missing ledger is refused with.
pub open spec fn missing_workspace(repo: Seq<char>) -> ErrorView {
    ErrorView::Storage("No workspace found at "@ + workspace_file(repo) + ". Run `latch init` first."@)
}

/// Opens the workspace of the project rooted at `repo`: the path of its
/// ledger file when that file exists (as the caller found), else the
/// refusal that tells the user to run `latch init`.
pub fn open_workspace(repo: &str, exists: bool) -> (r: Result<String, LatchError>)
    ensures
        match r {
            Ok(p) => exists && p@ == workspace_file(repo@),
            Err(e) => !exists && e@ == missing_workspace(repo@),
        },
{
    let path = workspace_path(repo);
    if exists {
        Ok(path)
    } else {
        Err(LatchError::Storage(join3("No workspace found at ", path.as_str(), ". Run `latch init` first.")))
    }
}

/// The line that reports a completed step in text output:
/// `<msg> at <path>`.
pub fn success_message(msg: &str, path: &str) -> (line: String)
    ensures
        line@ == msg@ + " at "@ + path@,
{
    join3(msg, " at ", path)
}

/// Initialises the workspace ledger: records the `workspace.initialized`
/// event at the current instant.
pub fn init_workspace(ledger: &mut Ledger, repo_id: &str)
    ensures
        exists|now: i128, event_id: Seq<char>|
            0 <= now <= MAX_INSTANT_NS && ulid_shaped(event_id) && #[trigger] init_spec(old(ledger)@, repo_id@, now, event_id)
                == final(ledger)@,
{
    let f = fresh();
    let ghost now = f.now;
    let ghost b = f.event_id@;
    ledger.record_init(repo_id, f);
    assert(init_spec(old(ledger)@, repo_id@, now, b) == ledger@);
}

/// The actor `context` speaks for: the one named with `--for`, else the
/// session's actor.
pub open spec fn context_actor(for_actor: Option<String>, s: Session) -> Seq<char> {
    match for_actor {
        Some(a) => a@,
        None => s.actor@,
    }
}

/// The outcome of running `cmd` in session `s` on ledger state `old`,
/// leaving `new` and answering `ans`, when the clock read `now` and the
/// fresh ids drawn were `entity_id` and `event_id`.
pub open spec fn run_outcome(
    old: LedgerView,
    cmd: Command,
    s: Session,
    new: LedgerView,
    ans: Result<ReplyView, ErrorView>,
    now: i128,
    entity_id: Seq<char>,
    event_id: Seq<char>,
) -> bool {
    &&& 0 <= now <= MAX_INSTANT_NS
    &&& match cmd {
        Command::Init => new == init_spec(old, s.repo_id@, now, event_id) && ans == Ok::<ReplyView, ErrorView>(ReplyView::Initialized),
        Command::Status { for_actor } => new == old && match ans {
            Ok(ReplyView::Status { overview, text }) => overview_matches(
                overview,
                old,
                opt_string(for_actor),
                Seq::empty(),
                now as int,
                8,
            ) && text == status_text_spec(overview),
            _ => false,
        },
        Command::Context { for_actor } => new == old && match ans {
            Ok(ReplyView::Context { overview, text }) => overview_matches(
                overview,
                old,
                Some(context_actor(for_actor, s)),
                s.repo@,
                now as int,
                5,
            ) && text == context_text_spec(overview),
            _ => false,
        },
        Command::Claim(c) => claim_handled(old, c, s, new, ans, now, entity_id, event_id),
        Command::Decision(c) => (new, ans) == decision_step(old, c, s, now, entity_id, event_id),
        Command::Contract(c) => (new, ans) == contract_step(old, c, s, now, entity_id, event_id),
        Command::Task(c) => (new, ans) == task_step(old, c, s, now, entity_id, event_id),
        Command::Note(c) => (new, ans) == note_step(old, c, s, now, entity_id, event_id),
        Command::Events(c) => new == old && ans == events_step(old, c),
    }
}

/// Runs the command of `cli` in `session` against the ledger, with a given
/// instant and fresh ids.
pub fn run_at(cli: &Cli, session: &Session, fresh: Fresh, ledger: &mut Ledger) -> (r: Result<Reply, LatchError>)
    requires
        well_timed(old(ledger)@),
        0 <= fresh.now <= MAX_INSTANT_NS,
    ensures
        run_outcome(
            old(ledger)@,
            cli.command,
            *session,
            final(ledger)@,
            answer(r),
            fresh.now,
            fresh.entity_id@,
            fresh.event_id@,
        ),
{
    let now = fresh.now;
    match &cli.command {
        Command::Init => {
            ledger.record_init(session.repo_id.as_str(), fresh);
            Ok(Reply::Initialized)
        },
        Command::Status { for_actor } => {
            let a = match for_actor {
                Some(s) => Some(s.as_str()),
                None => None,
            };
            let overview = show_status(ledger, a, now);
            let text = status_text(&overview);
            Ok(Reply::Status { overview, text })
        },
        Command::Context { for_actor } => {
            let a = match for_actor {
                Some(s) => s.as_str(),
                None => session.actor.as_str(),
            };
            let overview = show_context(ledger, session.repo.as_str(), Some(a), now);
            let text = context_text(&overview);
            Ok(Reply::Context { overview, text })
        },
        Command::Claim(c) => claims::handle_at(c, session, fresh, ledger),
        Command::Decision(c) => decisions::apply_decision(c, session, fresh, ledger),
        Command::Contract(c) => contracts::apply_contract(c, session, fresh, ledger),
        Command::Task(c) => tasks::apply_task(c, session, fresh, ledger),
        Command::Note(c) => notes::apply_note(c, session, fresh, ledger),
        Command::Events(c) => events::handle_cmd(c, ledger),
    }
}

/// Runs the command of `cli` in `session` against the ledger: reads the
/// clock and draws fresh ids.
pub fn run(cli: &Cli, session: &Session, ledger: &mut Ledger) -> (r: Result<Reply, LatchError>)
    requires
        well_timed(old(ledger)@),
    ensures
        exists|now: i128, entity_id: Seq<char>, event_id: Seq<char>|
            ulid_shaped(entity_id) && ulid_shaped(event_id) && #[trigger] run_outcome(
                old(ledger)@,
                cli.command,
                *session,
                final(ledger)@,
                answer(r),
                now,
                entity_id,
                event_id,
            ),
{
    let f = fresh();
    let ghost now = f.now;
    let ghost a = f.entity_id@;
    let ghost b = f.event_id@;
    let r = run_at(cli, session, f, ledger);
    assert(run_outcome(old(ledger)@, cli.command, *session, ledger@, answer(r), now, a, b));
    r
}

} // verus!
