//! What a command answers, and what it is given besides its arguments.
use vstd::prelude::*;
use crate::context::Overview;
use crate::error::{ErrorView, LatchError};
use crate::model::{
    Claim, ClaimView, Contract, ContractView, Decision, DecisionView, Event, EventView, Note,
    NoteView, Task, TaskStatus, TaskView,
};
use crate::rows::views;

verus! {

/// What a command is given besides its arguments: the resolved actor, the
/// project root as displayed, the workspace id, and the contents of the
/// `--body-file` it names (or the message of the error reading it).
#[derive(Debug)]
pub struct Session {
    pub actor: String,
    pub repo: String,
    pub repo_id: String,
    pub body_file: Option<Result<String, String>>,
}

/// A command's answer.
#[derive(Debug)]
pub enum Reply {
    Initialized,
    ClaimAcquired(Claim),
    Claims(Vec<Claim>),
    ClaimRenewed { id: String, expires_at: i128 },
    ClaimReleased(String),
    TaskAdded(Task),
    Tasks(Vec<Task>),
    TaskMoved { id: String, status: TaskStatus },
    NoteAdded(Note),
    Notes(Vec<Note>),
    NoteRemoved(String),
    DecisionAdded(Decision),
    Decisions(Vec<Decision>),
    DecisionShown(Decision),
    DecisionSuperseded(Decision),
    ContractRecorded(Contract),
    Contracts(Vec<Contract>),
    ContractShown(Contract),
    Events(Vec<Event>),
    EventShown(Event),
    Status { overview: Overview, text: String },
    Context { overview: Overview, text: String },
}

/// The mathematical view of `Reply`.
pub enum ReplyView {
    Initialized,
    ClaimAcquired(ClaimView),
    Claims(Seq<ClaimView>),
    ClaimRenewed { id: Seq<char>, expires_at: i128 },
    ClaimReleased(Seq<char>),
    TaskAdded(TaskView),
    Tasks(Seq<TaskView>),
    TaskMoved { id: Seq<char>, status: TaskStatus },
    NoteAdded(NoteView),
    Notes(Seq<NoteView>),
    NoteRemoved(Seq<char>),
    DecisionAdded(DecisionView),
    Decisions(Seq<DecisionView>),
    DecisionShown(DecisionView),
    DecisionSuperseded(DecisionView),
    ContractRecorded(ContractView),
    Contracts(Seq<ContractView>),
    ContractShown(ContractView),
    Events(Seq<EventView>),
    EventShown(EventView),
    Status { overview: Overview, text: Seq<char> },
    Context { overview: Overview, text: Seq<char> },
}

impl View for Reply {
    type V = ReplyView;

    open spec fn view(&self) -> ReplyView {
        match self {
            Reply::Initialized => ReplyView::Initialized,
            Reply::ClaimAcquired(c) => ReplyView::ClaimAcquired(c@),
            Reply::Claims(v) => ReplyView::Claims(views(v@)),
            Reply::ClaimRenewed { id, expires_at } => ReplyView::ClaimRenewed {
                id: id@,
                expires_at: *expires_at,
            },
            Reply::ClaimReleased(id) => ReplyView::ClaimReleased(id@),
            Reply::TaskAdded(t) => ReplyView::TaskAdded(t@),
            Reply::Tasks(v) => ReplyView::Tasks(views(v@)),
            Reply::TaskMoved { id, status } => ReplyView::TaskMoved { id: id@, status: *status },
            Reply::NoteAdded(n) => ReplyView::NoteAdded(n@),
            Reply::Notes(v) => ReplyView::Notes(views(v@)),
            Reply::NoteRemoved(id) => ReplyView::NoteRemoved(id@),
            Reply::DecisionAdded(d) => ReplyView::DecisionAdded(d@),
            Reply::Decisions(v) => ReplyView::Decisions(views(v@)),
            Reply::DecisionShown(d) => ReplyView::DecisionShown(d@),
            Reply::DecisionSuperseded(d) => ReplyView::DecisionSuperseded(d@),
            Reply::ContractRecorded(c) => ReplyView::ContractRecorded(c@),
            Reply::Contracts(v) => ReplyView::Contracts(views(v@)),
            Reply::ContractShown(c) => ReplyView::ContractShown(c@),
            Reply::Events(v) => ReplyView::Events(views(v@)),
            Reply::EventShown(e) => ReplyView::EventShown(e@),
            Reply::Status { overview, text } => ReplyView::Status {
                overview: *overview,
                text: text@,
            },
            Reply::Context { overview, text } => ReplyView::Context {
                overview: *overview,
                text: text@,
            },
        }
    }
}

/// The view of a command's outcome.
pub open spec fn answer(r: Result<Reply, LatchError>) -> Result<ReplyView, ErrorView> {
    match r {
        Ok(v) => Ok(v@),
        Err(e) => Err(e@),
    }
}

/// A successful outcome mapped into a reply.
pub open spec fn map_ok<T>(r: Result<T, ErrorView>, f: spec_fn(T) -> ReplyView) -> Result<ReplyView, ErrorView> {
    match r {
        Ok(v) => Ok(f(v)),
        Err(e) => Err(e),
    }
}

} // verus!
