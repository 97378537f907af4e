//! Task handoffs: adding, listing, and the open → taken → done lifecycle
//! with cancellation.
use vstd::prelude::*;
use crate::cli::{opt_string, TaskCommand};
use crate::clock::{ulid_shaped, MAX_INSTANT_NS};
use crate::error::{ErrorView, LatchError};
use crate::journal::{event_of, fresh, new_event, text_entry, with_event, Fresh};
use crate::reply::{answer, map_ok, Reply, ReplyView, Session};
use crate::model::{Ledger, LedgerView, PayloadEntry, PayloadValueView, Task, TaskStatus, TaskView};
use crate::ranking::{pick, ranking, RankKey};
use crate::rows::{ranked_rows, stamp_keys, views};
use crate::text::{join3, join5, owned, same_text};

verus! {

/// The text of a task status.
pub open spec fn task_status_text(s: TaskStatus) -> Seq<char> {
    match s {
        TaskStatus::Open => "open"@,
        TaskStatus::Taken => "taken"@,
        TaskStatus::Done => "done"@,
        TaskStatus::Canceled => "canceled"@,
    }
}

/// The text of a task status.
pub fn task_status_name(s: TaskStatus) -> (t: &'static str)
    ensures
        t@ == task_status_text(s),
{
    match s {
        TaskStatus::Open => "open",
        TaskStatus::Taken => "taken",
        TaskStatus::Done => "done",
        TaskStatus::Canceled => "canceled",
    }
}

/// A task still waits for work: open or taken.
pub open spec fn task_active(t: TaskView) -> bool {
    t.status == TaskStatus::Open || t.status == TaskStatus::Taken
}

/// An optional text, or a default.
pub open spec fn or_text(v: Option<Seq<char>>, d: Seq<char>) -> Seq<char> {
    match v {
        Some(s) => s,
        None => d,
    }
}

/// What adding a task does: an open task assigned to `to`, with priority
/// `normal` and an empty body unless given.
pub open spec fn add_task_spec(
    l: LedgerView,
    actor: Seq<char>,
    to: Seq<char>,
    title: Seq<char>,
    body: Option<Seq<char>>,
    priority: Option<Seq<char>>,
    repo_id: Seq<char>,
    now: i128,
    task_id: Seq<char>,
    event_id: Seq<char>,
) -> (LedgerView, TaskView) {
    let t = TaskView {
        id: task_id,
        title,
        body: or_text(body, Seq::empty()),
        assigned_to: to,
        created_by: actor,
        status: TaskStatus::Open,
        priority: or_text(priority, "normal"@),
        created_at: now,
        updated_at: now,
    };
    let e = event_of(
        event_id,
        repo_id,
        now,
        actor,
        "task.added"@,
        "task"@,
        task_id,
        seq![
            ("title"@, PayloadValueView::Text(title)),
            ("assigned_to"@, PayloadValueView::Text(to)),
            ("priority"@, PayloadValueView::Text(or_text(priority, "normal"@))),
        ],
    );
    (with_event(LedgerView { tasks: l.tasks.push(t), ..l }, e), t)
}

/// A task is listed for `assignee`: it is active and, when an assignee is
/// given, assigned to it.
pub open spec fn task_listed(t: TaskView, assignee: Option<Seq<char>>) -> bool {
    task_active(t) && match assignee {
        Some(a) => t.assigned_to == a,
        None => true,
    }
}

/// The tasks that `task list` shows: active ones (for the assignee, when
/// given), most recently created first.
pub open spec fn task_listing(tasks: Seq<TaskView>, assignee: Option<Seq<char>>) -> Seq<TaskView> {
    pick(tasks, ranking(newest_created(tasks), listed_flags(tasks, assignee)))
}

/// The sort keys that put the most recently created tasks first.
pub open spec fn newest_created(tasks: Seq<TaskView>) -> Seq<RankKey> {
    stamp_keys(created_stamps(tasks))
}

/// The stamps that put the most recently created tasks first.
pub open spec fn created_stamps(tasks: Seq<TaskView>) -> Seq<int> {
    Seq::new(tasks.len(), |i: int| -1 - tasks[i].created_at)
}

/// Which tasks are listed for `assignee`.
pub open spec fn listed_flags(tasks: Seq<TaskView>, assignee: Option<Seq<char>>) -> Seq<bool> {
    Seq::new(tasks.len(), |i: int| task_listed(tasks[i], assignee))
}

/// Some task with id `id` is in status `from`.
pub open spec fn any_in(tasks: Seq<TaskView>, id: Seq<char>, from: TaskStatus) -> bool {
    exists|i: int| 0 <= i < tasks.len() && (#[trigger] tasks[i]).id == id && tasks[i].status == from
}

/// What moving task `id` from `from` to `to` does: every task with that id
/// in status `from` moves; the event has kind `kind`.
pub open spec fn transition_spec(
    l: LedgerView,
    actor: Seq<char>,
    id: Seq<char>,
    from: TaskStatus,
    to: TaskStatus,
    kind: Seq<char>,
    repo_id: Seq<char>,
    now: i128,
    event_id: Seq<char>,
) -> (LedgerView, Result<TaskStatus, ErrorView>) {
    if !any_in(l.tasks, id, from) {
        (
            l,
            Err(
                ErrorView::NotFound(
                    "Task "@ + id + " not found or not in '"@ + task_status_text(from) + "' status"@,
                ),
            ),
        )
    } else {
        let tasks = l.tasks.map_values(
            |t: TaskView|
                if t.id == id && t.status == from {
                    TaskView { status: to, updated_at: now, ..t }
                } else {
                    t
                },
        );
        let e = event_of(
            event_id,
            repo_id,
            now,
            actor,
            kind,
            "task"@,
            id,
            seq![
                ("from"@, PayloadValueView::Text(task_status_text(from))),
                ("to"@, PayloadValueView::Text(task_status_text(to))),
            ],
        );
        (with_event(LedgerView { tasks, ..l }, e), Ok(to))
    }
}

/// Some task with id `id` is still active.
pub open spec fn any_active(tasks: Seq<TaskView>, id: Seq<char>) -> bool {
    exists|i: int| 0 <= i < tasks.len() && (#[trigger] tasks[i]).id == id && task_active(tasks[i])
}

/// What canceling task `id` does: every active task with that id is
/// canceled.
pub open spec fn cancel_spec(
    l: LedgerView,
    actor: Seq<char>,
    id: Seq<char>,
    repo_id: Seq<char>,
    now: i128,
    event_id: Seq<char>,
) -> (LedgerView, Result<(), ErrorView>) {
    if !any_active(l.tasks, id) {
        (l, Err(ErrorView::NotFound("Task "@ + id + " not found or already completed"@)))
    } else {
        let tasks = l.tasks.map_values(
            |t: TaskView|
                if t.id == id && task_active(t) {
                    TaskView { status: TaskStatus::Canceled, updated_at: now, ..t }
                } else {
                    t
                },
        );
        let e = event_of(event_id, repo_id, now, actor, "task.canceled"@, "task"@, id, seq![]);
        (with_event(LedgerView { tasks, ..l }, e), Ok(()))
    }
}

impl Ledger {
    /// Adds an open task for `to`.
    pub fn add_task(
        &mut self,
        actor: &str,
        to: &str,
        title: &str,
        body: Option<&str>,
        priority: Option<&str>,
        repo_id: &str,
        fresh: Fresh,
    ) -> (t: Task)
        ensures
            (final(self)@, t@) == add_task_spec(
                old(self)@,
                actor@,
                to@,
                title@,
                match body {
                    Some(b) => Some(b@),
                    None => None,
                },
                match priority {
                    Some(p) => Some(p@),
                    None => None,
                },
                repo_id@,
                fresh.now,
                fresh.entity_id@,
                fresh.event_id@,
            ),
    {
        let priority_s = match priority {
            Some(p) => owned(p),
            None => owned("normal"),
        };
        let body_s = match body {
            Some(b) => owned(b),
            None => String::new(),
        };
        let task = Task {
            id: fresh.entity_id,
            title: owned(title),
            body: body_s,
            assigned_to: owned(to),
            created_by: owned(actor),
            status: TaskStatus::Open,
            priority: priority_s,
            created_at: fresh.now,
            updated_at: fresh.now,
        };
        let mut payload: Vec<PayloadEntry> = Vec::new();
        payload.push(text_entry("title", title));
        payload.push(text_entry("assigned_to", to));
        payload.push(text_entry("priority", task.priority.as_str()));
        let event = new_event(
            fresh.event_id,
            repo_id,
            fresh.now,
            actor,
            "task.added",
            "task",
            task.id.as_str(),
            payload,
        );
        let stored = task.copy();
        self.tasks.push(stored);
        assert(self@.tasks =~= old(self)@.tasks.push(task@));
        self.append_event(event);
        assert(payload@.map_values(|q: PayloadEntry| q@) =~= seq![
            ("title"@, PayloadValueView::Text(title@)),
            ("assigned_to"@, PayloadValueView::Text(to@)),
            ("priority"@, PayloadValueView::Text(task@.priority)),
        ]);
        task
    }

    /// The open and taken tasks, for `assignee` when given, most recently
    /// created first.
    pub fn open_tasks(&self, assignee: Option<&str>) -> (out: Vec<Task>)
        ensures
            views(out@) == task_listing(
                self@.tasks,
                match assignee {
                    Some(a) => Some(a@),
                    None => None,
                },
            ),
    {
        let ghost who = match assignee {
            Some(a) => Some(a@),
            None => None,
        };
        let mut stamps: Vec<i128> = Vec::new();
        let mut chosen: Vec<bool> = Vec::new();
        let mut i: usize = 0;
        while i < self.tasks.len()
            invariant
                i <= self.tasks.len(),
                stamps.len() == i,
                chosen.len() == i,
                who == match assignee {
                    Some(a) => Some(a@),
                    None => None::<Seq<char>>,
                },
                forall|k: int| 0 <= k < i ==> (#[trigger] stamps@[k]) == -1 - (self.tasks@[k].created_at as int),
                forall|k: int| 0 <= k < i ==> (#[trigger] chosen@[k]) == task_listed(self.tasks@[k]@, who),
            decreases self.tasks.len() - i,
        {
            let t = &self.tasks[i];
            stamps.push(-1 - t.created_at);
            let active = t.status == TaskStatus::Open || t.status == TaskStatus::Taken;
            let mine = match assignee {
                Some(a) => same_text(t.assigned_to.as_str(), a),
                None => true,
            };
            chosen.push(active && mine);
            i = i + 1;
        }
        let out = ranked_rows(&self.tasks, &stamps, &chosen, None);
        proof {
            let n = self@.tasks.len();
            assert(stamps@.map_values(|s: i128| s as int) =~= Seq::new(n, |k: int| -1 - self@.tasks[k].created_at));
            assert(chosen@ =~= Seq::new(n, |k: int| task_listed(self@.tasks[k], who)));
        }
        out
    }

    /// Moves task `id` from status `from` to status `to` (`task take`:
    /// open → taken; `task done`: taken → done).
    pub fn transition_task(
        &mut self,
        actor: &str,
        id: &str,
        from: TaskStatus,
        to: TaskStatus,
        kind: &str,
        repo_id: &str,
        fresh: Fresh,
    ) -> (r: Result<TaskStatus, LatchError>)
        ensures
            (final(self)@, match r {
                Ok(s) => Ok::<TaskStatus, ErrorView>(s),
                Err(e) => Err(e@),
            }) == transition_spec(old(self)@, actor@, id@, from, to, kind@, repo_id@, fresh.now, fresh.event_id@),
    {
        let ghost all = old(self)@.tasks;
        let mut updated: Vec<Task> = Vec::new();
        let mut found = false;
        let mut i: usize = 0;
        while i < self.tasks.len()
            invariant
                all == self@.tasks,
                i <= self.tasks.len(),
                views(updated@) =~= all.take(i as int).map_values(
                    |t: TaskView|
                        if t.id == id@ && t.status == from {
                            TaskView { status: to, updated_at: fresh.now, ..t }
                        } else {
                            t
                        },
                ),
                found == exists|k: int| 0 <= k < i && (#[trigger] all[k]).id == id@ && all[k].status == from,
            decreases self.tasks.len() - i,
        {
            let t = &self.tasks[i];
            let mut d = t.copy();
            if t.status == from && same_text(t.id.as_str(), id) {
                d.status = to;
                d.updated_at = fresh.now;
                found = true;
            }
            assert((all[i as int].id == id@ && all[i as int].status == from) == (t.id@ == id@ && t.status == from));
            let ghost before = updated@;
            updated.push(d);
            assert(views(updated@) =~= views(before).push(d@));
            i = i + 1;
        }
        assert(all.take(self.tasks.len() as int) =~= all);
        if !found {
            let msg = join5("Task ", id, " not found or not in '", task_status_name(from), "' status");
            return Err(LatchError::NotFound(msg));
        }
        self.tasks = updated;
        let mut payload: Vec<PayloadEntry> = Vec::new();
        payload.push(text_entry("from", task_status_name(from)));
        payload.push(text_entry("to", task_status_name(to)));
        let event = new_event(fresh.event_id, repo_id, fresh.now, actor, kind, "task", id, payload);
        self.append_event(event);
        assert(payload@.map_values(|q: PayloadEntry| q@) =~= seq![
            ("from"@, PayloadValueView::Text(task_status_text(from))),
            ("to"@, PayloadValueView::Text(task_status_text(to))),
        ]);
        Ok(to)
    }

    /// Cancels task `id` if it is still open or taken.
    pub fn cancel_task(&mut self, actor: &str, id: &str, repo_id: &str, fresh: Fresh) -> (r: Result<(), LatchError>)
        ensures
            (final(self)@, match r {
                Ok(_) => Ok::<(), ErrorView>(()),
                Err(e) => Err(e@),
            }) == cancel_spec(old(self)@, actor@, id@, repo_id@, fresh.now, fresh.event_id@),
    {
        let ghost all = old(self)@.tasks;
        let mut updated: Vec<Task> = Vec::new();
        let mut found = false;
        let mut i: usize = 0;
        while i < self.tasks.len()
            invariant
                all == self@.tasks,
                i <= self.tasks.len(),
                views(updated@) =~= all.take(i as int).map_values(
                    |t: TaskView|
                        if t.id == id@ && task_active(t) {
                            TaskView { status: TaskStatus::Canceled, updated_at: fresh.now, ..t }
                        } else {
                            t
                        },
                ),
                found == exists|k: int| 0 <= k < i && (#[trigger] all[k]).id == id@ && task_active(all[k]),
            decreases self.tasks.len() - i,
        {
            let t = &self.tasks[i];
            let mut d = t.copy();
            if (t.status == TaskStatus::Open || t.status == TaskStatus::Taken) && same_text(t.id.as_str(), id) {
                d.status = TaskStatus::Canceled;
                d.updated_at = fresh.now;
                found = true;
            }
            assert((all[i as int].id == id@ && task_active(all[i as int])) == (t.id@ == id@ && task_active(t@)));
            let ghost before = updated@;
            updated.push(d);
            assert(views(updated@) =~= views(before).push(d@));
            i = i + 1;
        }
        assert(all.take(self.tasks.len() as int) =~= all);
        if !found {
            return Err(LatchError::NotFound(join3("Task ", id, " not found or already completed")));
        }
        self.tasks = updated;
        let payload: Vec<PayloadEntry> = Vec::new();
        assert(payload@.map_values(|q: PayloadEntry| q@) =~= seq![]);
        let event = new_event(fresh.event_id, repo_id, fresh.now, actor, "task.canceled", "task", id, payload);
        self.append_event(event);
        Ok(())
    }
}

/// What a task command does, given the instant and the fresh ids.
pub open spec fn task_step(
    l: LedgerView,
    cmd: TaskCommand,
    s: Session,
    now: i128,
    entity_id: Seq<char>,
    event_id: Seq<char>,
) -> (LedgerView, Result<ReplyView, ErrorView>) {
    match cmd {
        TaskCommand::Add { to, title, body, priority } => {
            let (l2, t) = add_task_spec(
                l,
                s.actor@,
                to@,
                title@,
                opt_string(body),
                opt_string(priority),
                s.repo_id@,
                now,
                entity_id,
                event_id,
            );
            (l2, Ok(ReplyView::TaskAdded(t)))
        },
        TaskCommand::List { for_actor } => (
            l,
            Ok(ReplyView::Tasks(task_listing(l.tasks, opt_string(for_actor)))),
        ),
        TaskCommand::Take { id } => {
            let (l2, r) = transition_spec(
                l,
                s.actor@,
                id@,
                TaskStatus::Open,
                TaskStatus::Taken,
                "task.taken"@,
                s.repo_id@,
                now,
                event_id,
            );
            (l2, map_ok(r, |st: TaskStatus| ReplyView::TaskMoved { id: id@, status: st }))
        },
        TaskCommand::Done { id } => {
            let (l2, r) = transition_spec(
                l,
                s.actor@,
                id@,
                TaskStatus::Taken,
                TaskStatus::Done,
                "task.done"@,
                s.repo_id@,
                now,
                event_id,
            );
            (l2, map_ok(r, |st: TaskStatus| ReplyView::TaskMoved { id: id@, status: st }))
        },
        TaskCommand::Cancel { id } => {
            let (l2, r) = cancel_spec(l, s.actor@, id@, s.repo_id@, now, event_id);
            (
                l2,
                map_ok(r, |u: ()| ReplyView::TaskMoved { id: id@, status: TaskStatus::Canceled }),
            )
        },
    }
}

/// Runs a task command with a given instant and fresh ids.
pub fn apply_task(cmd: &TaskCommand, session: &Session, fresh: Fresh, ledger: &mut Ledger) -> (r: Result<Reply, LatchError>)
    ensures
        (final(ledger)@, answer(r)) == task_step(
            old(ledger)@,
            *cmd,
            *session,
            fresh.now,
            fresh.entity_id@,
            fresh.event_id@,
        ),
{
    let actor = session.actor.as_str();
    let repo_id = session.repo_id.as_str();
    match cmd {
        TaskCommand::Add { to, title, body, priority } => {
            let b = match body {
                Some(s) => Some(s.as_str()),
                None => None,
            };
            let p = match priority {
                Some(s) => Some(s.as_str()),
                None => None,
            };
            let t = ledger.add_task(actor, to.as_str(), title.as_str(), b, p, repo_id, fresh);
            Ok(Reply::TaskAdded(t))
        },
        TaskCommand::List { for_actor } => {
            let a = match for_actor {
                Some(s) => Some(s.as_str()),
                None => None,
            };
            Ok(Reply::Tasks(ledger.open_tasks(a)))
        },
        TaskCommand::Take { id } => {
            match ledger.transition_task(actor, id.as_str(), TaskStatus::Open, TaskStatus::Taken, "task.taken", repo_id, fresh) {
                Ok(st) => Ok(Reply::TaskMoved { id: id.clone(), status: st }),
                Err(e) => Err(e),
            }
        },
        TaskCommand::Done { id } => {
            match ledger.transition_task(actor, id.as_str(), TaskStatus::Taken, TaskStatus::Done, "task.done", repo_id, fresh) {
                Ok(st) => Ok(Reply::TaskMoved { id: id.clone(), status: st }),
                Err(e) => Err(e),
            }
        },
        TaskCommand::Cancel { id } => {
            match ledger.cancel_task(actor, id.as_str(), repo_id, fresh) {
                Ok(_) => Ok(Reply::TaskMoved { id: id.clone(), status: TaskStatus::Canceled }),
                Err(e) => Err(e),
            }
        },
    }
}

/// Runs a task command: reads the clock and draws fresh ids.
pub fn handle(cmd: &TaskCommand, session: &Session, ledger: &mut Ledger) -> (r: Result<Reply, LatchError>)
    ensures
        exists|now: i128, entity_id: Seq<char>, event_id: Seq<char>|
            0 <= now <= MAX_INSTANT_NS && ulid_shaped(entity_id) && ulid_shaped(event_id) && #[trigger] task_step(old(ledger)@, *cmd, *session, now, entity_id, event_id)
                == (final(ledger)@, answer(r)),
{
    let f = fresh();
    let ghost now = f.now;
    let ghost a = f.entity_id@;
    let ghost b = f.event_id@;
    let r = apply_task(cmd, session, f, ledger);
    assert(task_step(old(ledger)@, *cmd, *session, now, a, b) == (ledger@, answer(r)));
    r
}

} // verus!
