//! The records of the coordination ledger and their mathematical views.
//!
//! Instants are nanoseconds since the Unix epoch (UTC).
use vstd::prelude::*;

verus! {

/// The views of a sequence of strings.
pub open spec fn texts(v: Seq<String>) -> Seq<Seq<char>> {
    v.map_values(|s: String| s@)
}

/// A copy of a list of strings.
pub fn copy_strings(v: &Vec<String>) -> (out: Vec<String>)
    ensures
        texts(out@) == texts(v@),
{
    let mut out: Vec<String> = Vec::new();
    let mut i: usize = 0;
    while i < v.len()
        invariant
            i <= v.len(),
            texts(out@) =~= texts(v@).take(i as int),
        decreases v.len() - i,
    {
        let x = v[i].clone();
        let ghost before = out@;
        out.push(x);
        assert(texts(out@) =~= texts(before).push(v@[i as int]@));
        assert(texts(v@).take(i as int + 1) =~= texts(v@).take(i as int).push(v@[i as int]@));
        i = i + 1;
    }
    assert(texts(v@).take(v.len() as int) =~= texts(v@));
    out
}

/// A copy of an optional string.
pub fn copy_opt(v: &Option<String>) -> (out: Option<String>)
    ensures
        opt_text(out) == opt_text(*v),
{
    match v {
        Some(s) => Some(s.clone()),
        None => None,
    }
}

/// The view of an optional string.
pub open spec fn opt_text(v: Option<String>) -> Option<Seq<char>> {
    match v {
        Some(s) => Some(s@),
        None => None,
    }
}

/// Whether a claim covers a single file or a directory tree.
#[derive(Clone, Copy, Debug, PartialEq, Eq, Structural)]
pub enum ClaimScope {
    File,
    Dir,
}

/// Whether a claim is still held.
#[derive(Clone, Copy, Debug, PartialEq, Eq, Structural)]
pub enum ClaimStatus {
    Active,
    Released,
}

/// An actor's declared intent to work on a path for a bounded time.
#[derive(Debug)]
pub struct Claim {
    pub id: String,
    pub owner: String,
    pub path: String,
    pub scope: ClaimScope,
    pub intent: String,
    pub status: ClaimStatus,
    pub acquired_at: i128,
    pub heartbeat_at: i128,
    pub expires_at: i128,
    pub released_at: Option<i128>,
}

/// The mathematical view of `Claim`.
pub struct ClaimView {
    pub id: Seq<char>,
    pub owner: Seq<char>,
    pub path: Seq<char>,
    pub scope: ClaimScope,
    pub intent: Seq<char>,
    pub status: ClaimStatus,
    pub acquired_at: i128,
    pub heartbeat_at: i128,
    pub expires_at: i128,
    pub released_at: Option<i128>,
}

impl View for Claim {
    type V = ClaimView;

    open spec fn view(&self) -> ClaimView {
        ClaimView {
            id: self.id@,
            owner: self.owner@,
            path: self.path@,
            scope: self.scope,
            intent: self.intent@,
            status: self.status,
            acquired_at: self.acquired_at,
            heartbeat_at: self.heartbeat_at,
            expires_at: self.expires_at,
            released_at: self.released_at,
        }
    }
}

impl Claim {
    /// A copy of this claim.
    pub fn copy(&self) -> (out: Claim)
        ensures
            out@ == self@,
    {
        Claim {
            id: self.id.clone(),
            owner: self.owner.clone(),
            path: self.path.clone(),
            scope: self.scope,
            intent: self.intent.clone(),
            status: self.status,
            acquired_at: self.acquired_at,
            heartbeat_at: self.heartbeat_at,
            expires_at: self.expires_at,
            released_at: self.released_at,
        }
    }
}

/// Where a task stands in its lifecycle.
#[derive(Clone, Copy, Debug, PartialEq, Eq, Structural)]
pub enum TaskStatus {
    Open,
    Taken,
    Done,
    Canceled,
}

/// An asynchronous handoff from one actor to another.
#[derive(Debug)]
pub struct Task {
    pub id: String,
    pub title: String,
    pub body: String,
    pub assigned_to: String,
    pub created_by: String,
    pub status: TaskStatus,
    pub priority: String,
    pub created_at: i128,
    pub updated_at: i128,
}

/// The mathematical view of `Task`.
pub struct TaskView {
    pub id: Seq<char>,
    pub title: Seq<char>,
    pub body: Seq<char>,
    pub assigned_to: Seq<char>,
    pub created_by: Seq<char>,
    pub status: TaskStatus,
    pub priority: Seq<char>,
    pub created_at: i128,
    pub updated_at: i128,
}

impl View for Task {
    type V = TaskView;

    open spec fn view(&self) -> TaskView {
        TaskView {
            id: self.id@,
            title: self.title@,
            body: self.body@,
            assigned_to: self.assigned_to@,
            created_by: self.created_by@,
            status: self.status,
            priority: self.priority@,
            created_at: self.created_at,
            updated_at: self.updated_at,
        }
    }
}

impl Task {
    /// Duplicates a task record, field by field.
    pub fn copy(&self) -> (out: Task)
        ensures
            out@ == self@,
    {
        Task {
            id: self.id.clone(),
            title: self.title.clone(),
            body: self.body.clone(),
            assigned_to: self.assigned_to.clone(),
            created_by: self.created_by.clone(),
            status: self.status,
            priority: self.priority.clone(),
            created_at: self.created_at,
            updated_at: self.updated_at,
        }
    }
}

/// The kind of a coordination note.
#[derive(Clone, Copy, Debug, PartialEq, Eq, Structural)]
pub enum NoteKind {
    Hazard,
    Handoff,
    Observation,
}

/// A durable coordination fact.
#[derive(Debug)]
pub struct Note {
    pub id: String,
    pub kind: NoteKind,
    pub body: String,
    pub author: String,
    pub created_at: i128,
}

/// The mathematical view of `Note`.
pub struct NoteView {
    pub id: Seq<char>,
    pub kind: NoteKind,
    pub body: Seq<char>,
    pub author: Seq<char>,
    pub created_at: i128,
}

impl View for Note {
    type V = NoteView;

    open spec fn view(&self) -> NoteView {
        NoteView {
            id: self.id@,
            kind: self.kind,
            body: self.body@,
            author: self.author@,
            created_at: self.created_at,
        }
    }
}

impl Note {
    /// A copy of this note.
    pub fn copy(&self) -> (out: Note)
        ensures
            out@ == self@,
    {
        Note {
            id: self.id.clone(),
            kind: self.kind,
            body: self.body.clone(),
            author: self.author.clone(),
            created_at: self.created_at,
        }
    }
}

/// Whether a decision still stands.
#[derive(Clone, Copy, Debug, PartialEq, Eq, Structural)]
pub enum DecisionStatus {
    Active,
    Superseded,
}

/// An agreed architectural or process choice.
#[derive(Debug)]
pub struct Decision {
    pub id: String,
    pub title: String,
    pub body: String,
    pub participants: Vec<String>,
    pub tags: Vec<String>,
    pub status: DecisionStatus,
    pub created_at: i128,
    pub superseded_by: Option<String>,
}

/// The mathematical view of `Decision`.
pub struct DecisionView {
    pub id: Seq<char>,
    pub title: Seq<char>,
    pub body: Seq<char>,
    pub participants: Seq<Seq<char>>,
    pub tags: Seq<Seq<char>>,
    pub status: DecisionStatus,
    pub created_at: i128,
    pub superseded_by: Option<Seq<char>>,
}

impl View for Decision {
    type V = DecisionView;

    open spec fn view(&self) -> DecisionView {
        DecisionView {
            id: self.id@,
            title: self.title@,
            body: self.body@,
            participants: texts(self.participants@),
            tags: texts(self.tags@),
            status: self.status,
            created_at: self.created_at,
            superseded_by: opt_text(self.superseded_by),
        }
    }
}

impl Decision {
    /// A copy of this decision.
    pub fn copy(&self) -> (out: Decision)
        ensures
            out@ == self@,
    {
        Decision {
            id: self.id.clone(),
            title: self.title.clone(),
            body: self.body.clone(),
            participants: copy_strings(&self.participants),
            tags: copy_strings(&self.tags),
            status: self.status,
            created_at: self.created_at,
            superseded_by: copy_opt(&self.superseded_by),
        }
    }
}

/// The format of a contract body.
#[derive(Clone, Copy, Debug, PartialEq, Eq, Structural)]
pub enum ContractFormat {
    Json,
    Markdown,
    Text,
}

/// A negotiated schema, API shape or behaviour agreement.
#[derive(Debug)]
pub struct Contract {
    pub id: String,
    pub name: String,
    pub version: String,
    pub format: ContractFormat,
    pub body: String,
    pub owner: String,
    pub consumers: Vec<String>,
    pub created_at: i128,
}

/// The mathematical view of `Contract`.
pub struct ContractView {
    pub id: Seq<char>,
    pub name: Seq<char>,
    pub version: Seq<char>,
    pub format: ContractFormat,
    pub body: Seq<char>,
    pub owner: Seq<char>,
    pub consumers: Seq<Seq<char>>,
    pub created_at: i128,
}

impl View for Contract {
    type V = ContractView;

    open spec fn view(&self) -> ContractView {
        ContractView {
            id: self.id@,
            name: self.name@,
            version: self.version@,
            format: self.format,
            body: self.body@,
            owner: self.owner@,
            consumers: texts(self.consumers@),
            created_at: self.created_at,
        }
    }
}

impl Contract {
    /// A copy of this contract.
    pub fn copy(&self) -> (out: Contract)
        ensures
            out@ == self@,
    {
        Contract {
            id: self.id.clone(),
            name: self.name.clone(),
            version: self.version.clone(),
            format: self.format,
            body: self.body.clone(),
            owner: self.owner.clone(),
            consumers: copy_strings(&self.consumers),
            created_at: self.created_at,
        }
    }
}

/// A value in an event's payload.
#[derive(Debug)]
pub enum PayloadValue {
    Text(String),
    List(Vec<String>),
    Instant(i128),
}

/// The mathematical view of `PayloadValue`.
pub enum PayloadValueView {
    Text(Seq<char>),
    List(Seq<Seq<char>>),
    Instant(i128),
}

impl View for PayloadValue {
    type V = PayloadValueView;

    open spec fn view(&self) -> PayloadValueView {
        match self {
            PayloadValue::Text(s) => PayloadValueView::Text(s@),
            PayloadValue::List(v) => PayloadValueView::List(texts(v@)),
            PayloadValue::Instant(t) => PayloadValueView::Instant(*t),
        }
    }
}

/// One named field of an event's payload.
#[derive(Debug)]
pub struct PayloadEntry {
    pub key: String,
    pub value: PayloadValue,
}

impl View for PayloadEntry {
    type V = (Seq<char>, PayloadValueView);

    open spec fn view(&self) -> (Seq<char>, PayloadValueView) {
        (self.key@, self.value@)
    }
}

impl PayloadEntry {
    /// A copy of this entry.
    pub fn copy(&self) -> (out: PayloadEntry)
        ensures
            out@ == self@,
    {
        let value = match &self.value {
            PayloadValue::Text(s) => PayloadValue::Text(s.clone()),
            PayloadValue::List(v) => PayloadValue::List(copy_strings(v)),
            PayloadValue::Instant(t) => PayloadValue::Instant(*t),
        };
        PayloadEntry { key: self.key.clone(), value }
    }
}

/// The views of payload entries.
pub open spec fn payload_view(p: Seq<PayloadEntry>) -> Seq<(Seq<char>, PayloadValueView)> {
    p.map_values(|e: PayloadEntry| e@)
}

/// A copy of a payload.
pub fn copy_payload(p: &Vec<PayloadEntry>) -> (out: Vec<PayloadEntry>)
    ensures
        payload_view(out@) == payload_view(p@),
{
    let mut out: Vec<PayloadEntry> = Vec::new();
    let mut i: usize = 0;
    while i < p.len()
        invariant
            i <= p.len(),
            payload_view(out@) =~= payload_view(p@).take(i as int),
        decreases p.len() - i,
    {
        let x = p[i].copy();
        let ghost before = out@;
        out.push(x);
        assert(payload_view(out@) =~= payload_view(before).push(p@[i as int]@));
        assert(payload_view(p@).take(i as int + 1) =~= payload_view(p@).take(i as int).push(
            p@[i as int]@,
        ));
        i = i + 1;
    }
    assert(payload_view(p@).take(p.len() as int) =~= payload_view(p@));
    out
}

/// One entry of the append-only event log.
#[derive(Debug)]
pub struct Event {
    pub id: String,
    pub repo_id: String,
    pub created_at: i128,
    pub actor: String,
    pub kind: String,
    pub entity_type: String,
    pub entity_id: String,
    pub correlation_id: Option<String>,
    pub payload: Vec<PayloadEntry>,
}

/// The mathematical view of `Event`.
pub struct EventView {
    pub id: Seq<char>,
    pub repo_id: Seq<char>,
    pub created_at: i128,
    pub actor: Seq<char>,
    pub kind: Seq<char>,
    pub entity_type: Seq<char>,
    pub entity_id: Seq<char>,
    pub correlation_id: Option<Seq<char>>,
    pub payload: Seq<(Seq<char>, PayloadValueView)>,
}

impl View for Event {
    type V = EventView;

    open spec fn view(&self) -> EventView {
        EventView {
            id: self.id@,
            repo_id: self.repo_id@,
            created_at: self.created_at,
            actor: self.actor@,
            kind: self.kind@,
            entity_type: self.entity_type@,
            entity_id: self.entity_id@,
            correlation_id: opt_text(self.correlation_id),
            payload: payload_view(self.payload@),
        }
    }
}

impl Event {
    /// A copy of this event.
    pub fn copy(&self) -> (out: Event)
        ensures
            out@ == self@,
    {
        Event {
            id: self.id.clone(),
            repo_id: self.repo_id.clone(),
            created_at: self.created_at,
            actor: self.actor.clone(),
            kind: self.kind.clone(),
            entity_type: self.entity_type.clone(),
            entity_id: self.entity_id.clone(),
            correlation_id: copy_opt(&self.correlation_id),
            payload: copy_payload(&self.payload),
        }
    }
}

/// The whole coordination state: the materialised tables and the event log.
#[derive(Debug)]
pub struct Ledger {
    pub claims: Vec<Claim>,
    pub tasks: Vec<Task>,
    pub notes: Vec<Note>,
    pub decisions: Vec<Decision>,
    pub contracts: Vec<Contract>,
    pub events: Vec<Event>,
}

/// The mathematical view of `Ledger`.
pub struct LedgerView {
    pub claims: Seq<ClaimView>,
    pub tasks: Seq<TaskView>,
    pub notes: Seq<NoteView>,
    pub decisions: Seq<DecisionView>,
    pub contracts: Seq<ContractView>,
    pub events: Seq<EventView>,
}

impl View for Ledger {
    type V = LedgerView;

    open spec fn view(&self) -> LedgerView {
        LedgerView {
            claims: self.claims@.map_values(|c: Claim| c@),
            tasks: self.tasks@.map_values(|t: Task| t@),
            notes: self.notes@.map_values(|n: Note| n@),
            decisions: self.decisions@.map_values(|d: Decision| d@),
            contracts: self.contracts@.map_values(|c: Contract| c@),
            events: self.events@.map_values(|e: Event| e@),
        }
    }
}

impl Ledger {
    /// An empty ledger.
    pub fn new() -> (l: Ledger)
        ensures
            l@.claims.len() == 0,
            l@.tasks.len() == 0,
            l@.notes.len() == 0,
            l@.decisions.len() == 0,
            l@.contracts.len() == 0,
            l@.events.len() == 0,
    {
        Ledger {
            claims: Vec::new(),
            tasks: Vec::new(),
            notes: Vec::new(),
            decisions: Vec::new(),
            contracts: Vec::new(),
            events: Vec::new(),
        }
    }
}

} // verus!
