//! The library's laws checked on concrete command sequences.

use latch::claims::{scope_name};
use latch::cli::{
    ClaimCommand, Cli, Command, ContractCommand, DecisionCommand, EventsCommand, NoteCommand,
    TaskCommand,
};
use latch::commands::{run, run_at};
use latch::journal::Fresh;
use latch::error::LatchError;
use latch::model::{Claim, ClaimScope, ClaimStatus, Ledger, PayloadValue, TaskStatus};
use latch::reply::{Reply, Session};
use latch::workspace::compute_repo_id;

const REPO: &str = "/srv/project";

fn rfc3339(nanos: i128) -> String {
    let secs = nanos.div_euclid(1_000_000_000) as i64;
    let sub = nanos.rem_euclid(1_000_000_000) as u32;
    chrono::DateTime::<chrono::Utc>::from_timestamp(secs, sub).unwrap().to_rfc3339()
}

fn exec(ledger: &mut Ledger, actor: &str, command: Command) -> Result<Reply, LatchError> {
    exec_with_file(ledger, actor, command, None)
}

fn exec_with_file(
    ledger: &mut Ledger,
    actor: &str,
    command: Command,
    body_file: Option<Result<String, String>>,
) -> Result<Reply, LatchError> {
    let cli = Cli { repo: Some(REPO.to_string()), actor: Some(actor.to_string()), format: None, command };
    let session = Session {
        actor: actor.to_string(),
        repo: REPO.to_string(),
        repo_id: compute_repo_id(REPO),
        body_file,
    };
    assert!(ledger.is_well_timed());
    let r = run(&cli, &session, ledger);
    assert!(ledger.is_well_timed());
    r
}

fn fresh_ledger() -> Ledger {
    let mut ledger = Ledger::new();
    assert!(matches!(exec(&mut ledger, "system", Command::Init), Ok(Reply::Initialized)));
    ledger
}

fn acquire(path: &str, ttl: &str) -> Command {
    Command::Claim(ClaimCommand::Acquire { path: path.to_string(), intent: None, ttl: ttl.to_string() })
}

fn add_task(to: &str, title: &str) -> Command {
    Command::Task(TaskCommand::Add { to: to.to_string(), title: title.to_string(), body: None, priority: None })
}

fn record_contract(name: &str, version: &str, format: Option<&str>, body: &str) -> Command {
    Command::Contract(ContractCommand::Record {
        name: name.to_string(),
        version: version.to_string(),
        format: format.map(|f| f.to_string()),
        body: Some(body.to_string()),
        body_file: None,
        owner: None,
        consumer: Vec::new(),
    })
}

fn add_decision(title: &str, body: Option<&str>) -> Command {
    Command::Decision(DecisionCommand::Add {
        title: title.to_string(),
        body: body.map(|b| b.to_string()),
        body_file: None,
        tag: vec!["t1".to_string()],
        participant: vec!["p1".to_string(), "p2".to_string()],
    })
}

fn counts(l: &Ledger) -> (usize, usize, usize, usize, usize, usize) {
    (l.claims.len(), l.tasks.len(), l.notes.len(), l.decisions.len(), l.contracts.len(), l.events.len())
}

#[test]
fn every_mutation_appends_one_event() {
    let mut ledger = fresh_ledger();
    assert_eq!(ledger.events.len(), 1);
    assert_eq!(ledger.events[0].kind, "workspace.initialized");
    assert_eq!(ledger.events[0].actor, "system");
    assert_eq!(ledger.events[0].repo_id, compute_repo_id(REPO));

    let steps = vec![
        (acquire("a.rs", "1h"), "claim.acquired"),
        (add_task("bjarn", "t"), "task.added"),
        (Command::Note(NoteCommand::Add { kind: "hazard".to_string(), body: "b".to_string() }), "note.added"),
        (add_decision("d", Some("x")), "decision.added"),
        (record_contract("c", "v1", Some("text"), "hello"), "contract.set"),
    ];
    for (cmd, kind) in steps {
        let before = ledger.events.len();
        let r = exec(&mut ledger, "nix", cmd);
        assert!(r.is_ok(), "{:?}", r);
        assert_eq!(ledger.events.len(), before + 1);
        let e = &ledger.events[before];
        assert_eq!(e.kind, kind);
        assert_eq!(e.actor, "nix");
        assert_eq!(e.repo_id, compute_repo_id(REPO));
    }
    let e = &ledger.events[1];
    let keys: Vec<&str> = e.payload.iter().map(|p| p.key.as_str()).collect();
    assert_eq!(keys, vec!["path", "scope", "intent", "ttl"]);
    assert!(matches!(&e.payload[3].value, PayloadValue::Text(t) if t == "1h"));
}

#[test]
fn refused_and_read_only_commands_change_nothing() {
    let mut ledger = fresh_ledger();
    let _ = exec(&mut ledger, "nix", acquire("src/", "1h"));
    let before = counts(&ledger);
    let refused = vec![
        acquire("src/x.rs", "1h"),
        acquire("../x", "1h"),
        acquire("y.rs", "2d"),
        Command::Task(TaskCommand::Take { id: "nope".to_string() }),
        Command::Note(NoteCommand::Add { kind: "gossip".to_string(), body: "b".to_string() }),
        Command::Note(NoteCommand::Remove { id: "nope".to_string() }),
        Command::Decision(DecisionCommand::Show { id: "nope".to_string() }),
        Command::Contract(ContractCommand::Get { name: "nope".to_string(), version: None }),
        Command::Events(EventsCommand::Show { id: "nope".to_string() }),
    ];
    for cmd in refused {
        assert!(exec(&mut ledger, "bjarn", cmd).is_err());
        assert_eq!(counts(&ledger), before);
    }
    let reads = vec![
        Command::Status { for_actor: None },
        Command::Context { for_actor: Some("bjarn".to_string()) },
        Command::Claim(ClaimCommand::List),
        Command::Task(TaskCommand::List { for_actor: None }),
        Command::Note(NoteCommand::List { kind: None }),
        Command::Decision(DecisionCommand::List),
        Command::Contract(ContractCommand::List),
        Command::Events(EventsCommand::List { since: None, limit: 50 }),
    ];
    for cmd in reads {
        assert!(exec(&mut ledger, "bjarn", cmd).is_ok());
        assert_eq!(counts(&ledger), before);
    }
}

#[test]
fn ttl_beyond_chrono_is_refused() {
    let mut ledger = fresh_ledger();
    match exec(&mut ledger, "nix", acquire("a.rs", "9999999999999h")) {
        Err(LatchError::Validation(m)) => assert_eq!(m, "TTL out of range: 9999999999999h"),
        other => panic!("expected a validation error: {:?}", other),
    }
    match exec(&mut ledger, "nix", acquire("a.rs", "2000000000000h")) {
        Err(e) => assert_eq!(e.exit_code(), 1),
        other => panic!("expected a validation error: {:?}", other),
    }
    assert_eq!(ledger.claims.len(), 0);
}

#[test]
fn expired_and_released_claims_do_not_block() {
    let mut ledger = fresh_ledger();
    ledger.claims.push(Claim {
        id: "old".to_string(),
        owner: "ghost".to_string(),
        path: "src/".to_string(),
        scope: ClaimScope::Dir,
        intent: String::new(),
        status: ClaimStatus::Active,
        acquired_at: 0,
        heartbeat_at: 0,
        expires_at: 1_000,
        released_at: None,
    });
    match exec(&mut ledger, "nix", acquire("src/main.rs", "1h")) {
        Ok(Reply::ClaimAcquired(c)) => {
            assert_eq!(scope_name(c.scope), "file");
            assert_eq!(c.expires_at - c.acquired_at, 3_600_000_000_000);
        },
        other => panic!("expected the claim: {:?}", other),
    }
    let id = match exec(&mut ledger, "nix", acquire("docs/", "1h")) {
        Ok(Reply::ClaimAcquired(c)) => {
            assert_eq!(scope_name(c.scope), "dir");
            c.id
        },
        other => panic!("expected the claim: {:?}", other),
    };
    assert_eq!(id.len(), 26);
    assert!(exec(&mut ledger, "bjarn", acquire("docs/readme.md", "1h")).is_err());
    assert!(exec(&mut ledger, "nix", Command::Claim(ClaimCommand::Release { id: id.clone() })).is_ok());
    assert!(exec(&mut ledger, "bjarn", acquire("docs/readme.md", "1h")).is_ok());
    match exec(&mut ledger, "nix", Command::Claim(ClaimCommand::Release { id })) {
        Err(e) => assert_eq!(e.message(), format!("not found: Claim {} not found or not active", ledger.claims[2].id)),
        other => panic!("expected not found: {:?}", other),
    }
}

#[test]
fn renew_moves_expiry_and_heartbeat() {
    let mut ledger = fresh_ledger();
    let c = match exec(&mut ledger, "nix", acquire("a.rs", "30m")) {
        Ok(Reply::ClaimAcquired(c)) => c,
        other => panic!("expected the claim: {:?}", other),
    };
    match exec(&mut ledger, "nix", Command::Claim(ClaimCommand::Renew { id: c.id.clone(), ttl: "4h".to_string() })) {
        Ok(Reply::ClaimRenewed { id, expires_at }) => {
            assert_eq!(id, c.id);
            let stored = &ledger.claims[0];
            assert_eq!(stored.expires_at, expires_at);
            assert_eq!(stored.expires_at - stored.heartbeat_at, 4 * 3_600_000_000_000);
            assert!(expires_at > c.expires_at);
        },
        other => panic!("expected the renewal: {:?}", other),
    }
    match exec(&mut ledger, "nix", Command::Claim(ClaimCommand::Renew { id: "nope".to_string(), ttl: "1h".to_string() })) {
        Err(e) => assert_eq!(e.exit_code(), 3),
        other => panic!("expected not found: {:?}", other),
    }
}

#[test]
fn task_statuses_only_move_forward() {
    let mut ledger = fresh_ledger();
    let id = match exec(&mut ledger, "nix", add_task("bjarn", "t")) {
        Ok(Reply::TaskAdded(t)) => {
            assert_eq!(t.priority, "normal");
            assert_eq!(t.body, "");
            assert_eq!(t.created_by, "nix");
            t.id
        },
        other => panic!("task add failed: {:?}", other),
    };
    let take = || Command::Task(TaskCommand::Take { id: id.clone() });
    let done = || Command::Task(TaskCommand::Done { id: id.clone() });
    let cancel = || Command::Task(TaskCommand::Cancel { id: id.clone() });

    match exec(&mut ledger, "bjarn", done()) {
        Err(e) => assert_eq!(e.message(), format!("not found: Task {id} not found or not in 'taken' status")),
        other => panic!("done before take: {:?}", other),
    }
    assert!(exec(&mut ledger, "bjarn", take()).is_ok());
    assert!(exec(&mut ledger, "bjarn", done()).is_ok());
    assert_eq!(ledger.tasks[0].status, TaskStatus::Done);
    for cmd in vec![take(), done(), cancel()] {
        assert!(exec(&mut ledger, "bjarn", cmd).is_err());
        assert_eq!(ledger.tasks[0].status, TaskStatus::Done);
    }
    match exec(&mut ledger, "bjarn", cancel()) {
        Err(e) => assert_eq!(e.message(), format!("not found: Task {id} not found or already completed")),
        other => panic!("cancel after done: {:?}", other),
    }
}

#[test]
fn task_list_is_newest_first() {
    let mut ledger = fresh_ledger();
    let _ = exec(&mut ledger, "nix", add_task("bjarn", "first"));
    let _ = exec(&mut ledger, "nix", add_task("bjarn", "second"));
    let _ = exec(&mut ledger, "nix", add_task("other", "third"));
    match exec(&mut ledger, "nix", Command::Task(TaskCommand::List { for_actor: Some("bjarn".to_string()) })) {
        Ok(Reply::Tasks(v)) => {
            let titles: Vec<&str> = v.iter().map(|t| t.title.as_str()).collect();
            assert_eq!(titles, vec!["second", "first"]);
        },
        other => panic!("task list failed: {:?}", other),
    }
}

#[test]
fn decisions_are_append_only_and_supersede_once() {
    let mut ledger = fresh_ledger();
    let id = match exec(&mut ledger, "nix", add_decision("d1", None)) {
        Ok(Reply::DecisionAdded(d)) => {
            assert_eq!(d.body, "");
            d.id
        },
        other => panic!("decision add failed: {:?}", other),
    };
    let supersede = |title: &str| {
        Command::Decision(DecisionCommand::Supersede {
            id: id.clone(),
            title: title.to_string(),
            body: Some("inline".to_string()),
            body_file: Some("notes.md".to_string()),
        })
    };
    match exec_with_file(&mut ledger, "nix", supersede("d2"), Some(Ok("from file".to_string()))) {
        Ok(Reply::DecisionSuperseded(d)) => {
            assert_eq!(d.body, "from file");
            assert_eq!(d.participants, vec!["p1".to_string(), "p2".to_string()]);
            assert_eq!(d.tags, vec!["t1".to_string()]);
        },
        other => panic!("supersede failed: {:?}", other),
    }
    assert_eq!(ledger.decisions.len(), 2);
    assert_eq!(ledger.decisions[0].title, "d1");
    assert_eq!(ledger.decisions[0].superseded_by, Some(ledger.decisions[1].id.clone()));
    match exec(&mut ledger, "nix", supersede("d3")) {
        Err(LatchError::Validation(m)) => assert_eq!(m, format!("Decision {id} is already superseded")),
        other => panic!("second supersede: {:?}", other),
    }
    match exec(&mut ledger, "nix", Command::Decision(DecisionCommand::Show { id: "nope".to_string() })) {
        Err(e) => assert_eq!(e.message(), "not found: Decision nope not found"),
        other => panic!("show missing: {:?}", other),
    }
}

#[test]
fn unreadable_body_file_is_an_io_error() {
    let mut ledger = fresh_ledger();
    let cmd = Command::Decision(DecisionCommand::Add {
        title: "d".to_string(),
        body: Some("inline".to_string()),
        body_file: Some("missing.md".to_string()),
        tag: Vec::new(),
        participant: Vec::new(),
    });
    match exec_with_file(&mut ledger, "nix", cmd, Some(Err("No such file or directory (os error 2)".to_string()))) {
        Err(e) => {
            assert_eq!(e.exit_code(), 4);
            assert_eq!(e.error_code(), "io_error");
        },
        other => panic!("expected an io error: {:?}", other),
    }
    assert_eq!(ledger.decisions.len(), 0);
}

#[test]
fn contracts_are_versioned_and_validated() {
    let mut ledger = fresh_ledger();
    let first = match exec(&mut ledger, "nix", record_contract("api", "v1", None, "{\"a\":1}")) {
        Ok(Reply::ContractRecorded(c)) => c,
        other => panic!("contract set failed: {:?}", other),
    };
    assert_eq!(first.owner, "nix");
    match exec(&mut ledger, "nix", record_contract("api", "v1", None, "{}")) {
        Err(LatchError::Validation(m)) => assert_eq!(m, "Contract api v1 already exists; create a new version instead"),
        other => panic!("duplicate version: {:?}", other),
    }
    match exec(&mut ledger, "nix", record_contract("api", "v2", Some("yaml"), "a: 1")) {
        Err(LatchError::Validation(m)) => assert_eq!(m, "Invalid contract format: yaml. Use json, markdown, or text"),
        other => panic!("bad format: {:?}", other),
    }
    match exec(&mut ledger, "nix", record_contract("api", "v2", None, "{not json")) {
        Err(e) => {
            assert_eq!(e.exit_code(), 1);
            assert_eq!(e.error_code(), "json_error");
        },
        other => panic!("bad json: {:?}", other),
    }
    assert!(exec(&mut ledger, "nix", record_contract("api", "v2", None, "   ")).is_ok());
    assert!(exec(&mut ledger, "nix", record_contract("api", "v3", Some("markdown"), "{not json")).is_ok());
    assert_eq!(ledger.contracts.len(), 3);
    assert_eq!(ledger.contracts[0].body, "{\"a\":1}");

    match exec(&mut ledger, "bjarn", Command::Contract(ContractCommand::Get { name: "api".to_string(), version: Some("v1".to_string()) })) {
        Ok(Reply::ContractShown(c)) => assert_eq!(c.id, first.id),
        other => panic!("get v1: {:?}", other),
    }
    match exec(&mut ledger, "bjarn", Command::Contract(ContractCommand::Get { name: "api".to_string(), version: None })) {
        Ok(Reply::ContractShown(c)) => assert_eq!(c.version, "v3"),
        other => panic!("get newest: {:?}", other),
    }
    match exec(&mut ledger, "bjarn", Command::Contract(ContractCommand::Get { name: "api".to_string(), version: Some("v9".to_string()) })) {
        Err(e) => assert_eq!(e.message(), "not found: Contract api v9 not found"),
        other => panic!("get missing version: {:?}", other),
    }
    match exec(&mut ledger, "bjarn", Command::Contract(ContractCommand::Get { name: "web".to_string(), version: None })) {
        Err(e) => assert_eq!(e.message(), "not found: Contract web not found"),
        other => panic!("get missing name: {:?}", other),
    }
    let _ = exec(&mut ledger, "nix", record_contract("alpha", "v1", Some("text"), "x"));
    match exec(&mut ledger, "bjarn", Command::Contract(ContractCommand::List)) {
        Ok(Reply::Contracts(v)) => {
            let names: Vec<(&str, &str)> = v.iter().map(|c| (c.name.as_str(), c.version.as_str())).collect();
            assert_eq!(names, vec![("alpha", "v1"), ("api", "v3"), ("api", "v2"), ("api", "v1")]);
        },
        other => panic!("contract list: {:?}", other),
    }
}

#[test]
fn notes_stay_until_removed() {
    let mut ledger = fresh_ledger();
    let keep = match exec(&mut ledger, "nix", Command::Note(NoteCommand::Add { kind: "hazard".to_string(), body: "h".to_string() })) {
        Ok(Reply::NoteAdded(n)) => n.id,
        other => panic!("note add: {:?}", other),
    };
    let gone = match exec(&mut ledger, "nix", Command::Note(NoteCommand::Add { kind: "handoff".to_string(), body: "x".to_string() })) {
        Ok(Reply::NoteAdded(n)) => n.id,
        other => panic!("note add: {:?}", other),
    };
    let _ = exec(&mut ledger, "nix", add_task("bjarn", "t"));
    let _ = exec(&mut ledger, "nix", acquire("a.rs", "1h"));
    assert_eq!(ledger.notes.len(), 2);
    assert!(exec(&mut ledger, "nix", Command::Note(NoteCommand::Remove { id: gone })).is_ok());
    assert_eq!(ledger.notes.len(), 1);
    assert_eq!(ledger.notes[0].id, keep);
    match exec(&mut ledger, "nix", Command::Note(NoteCommand::Add { kind: "gossip".to_string(), body: "x".to_string() })) {
        Err(LatchError::Validation(m)) => assert_eq!(m, "Invalid note kind: gossip. Must be one of: hazard, handoff, observation"),
        other => panic!("bad kind: {:?}", other),
    }
}

#[test]
fn events_list_filters_and_limits() {
    let mut ledger = fresh_ledger();
    let _ = exec(&mut ledger, "nix", add_task("bjarn", "t1"));
    let _ = exec(&mut ledger, "nix", add_task("bjarn", "t2"));
    let list = |since: Option<&str>, limit: usize| Command::Events(EventsCommand::List { since: since.map(|s| s.to_string()), limit });
    match exec(&mut ledger, "nix", list(None, 2)) {
        Ok(Reply::Events(v)) => {
            assert_eq!(v.len(), 2);
            assert_eq!(v[0].kind, "task.added");
        },
        other => panic!("events list: {:?}", other),
    }
    match exec(&mut ledger, "nix", list(Some("1970-01-01T00:00:00Z"), 50)) {
        Ok(Reply::Events(v)) => assert_eq!(v.len(), 3),
        other => panic!("events since epoch: {:?}", other),
    }
    match exec(&mut ledger, "nix", list(Some("9999-01-01T00:00:00Z"), 50)) {
        Ok(Reply::Events(v)) => assert_eq!(v.len(), 0),
        other => panic!("events since the far future: {:?}", other),
    }
    match exec(&mut ledger, "nix", list(None, 0)) {
        Ok(Reply::Events(v)) => assert_eq!(v.len(), 0),
        other => panic!("events with no room: {:?}", other),
    }
}

#[test]
fn status_and_context_text_render_exactly() {
    let mut ledger = fresh_ledger();
    match exec(&mut ledger, "nix", Command::Status { for_actor: None }) {
        Ok(Reply::Status { text, .. }) => assert_eq!(
            text,
            "Latch status\nActive claims:\n  none\nTasks:\n  none\nRecent decisions:\n  none\nContracts:\n  none\nHazards:\n  none\n"
        ),
        other => panic!("status: {:?}", other),
    }
    let claim = match exec(
        &mut ledger,
        "bjarn",
        Command::Claim(ClaimCommand::Acquire { path: "frontend/".to_string(), intent: Some("UI polish".to_string()), ttl: "1h".to_string() }),
    ) {
        Ok(Reply::ClaimAcquired(c)) => c,
        other => panic!("acquire: {:?}", other),
    };
    let _ = exec(&mut ledger, "nix", add_task("bjarn", "Review"));
    let _ = exec(&mut ledger, "nix", Command::Note(NoteCommand::Add { kind: "hazard".to_string(), body: "careful".to_string() }));
    match exec(&mut ledger, "nix", Command::Context { for_actor: Some("bjarn".to_string()) }) {
        Ok(Reply::Context { text, overview }) => {
            assert_eq!(overview.repo, REPO);
            assert_eq!(
                text,
                format!(
                    "Latch context for bjarn in {REPO}\nActive claims: bjarn frontend/ until {} (UI polish)\nAssigned tasks: [open/normal] Review (nix -> bjarn)\nRecent decisions: none\nContracts: none\nHazards: careful (nix)\n",
                    rfc3339(claim.expires_at)
                )
            );
        },
        other => panic!("context: {:?}", other),
    }
    match exec(&mut ledger, "nix", Command::Context { for_actor: None }) {
        Ok(Reply::Context { text, overview }) => {
            assert_eq!(overview.actor, Some("nix".to_string()));
            assert!(text.starts_with("Latch context for nix in /srv/project\nActive claims: none\nAssigned tasks: none\n"));
        },
        other => panic!("context for the session actor: {:?}", other),
    }
    match exec(&mut ledger, "nix", Command::Status { for_actor: Some("nobody".to_string()) }) {
        Ok(Reply::Status { overview, text }) => {
            assert!(overview.claims.is_empty());
            assert!(overview.tasks.is_empty());
            assert_eq!(overview.hazards.len(), 1);
            assert!(text.starts_with("Latch status for nobody\n"));
            assert!(text.ends_with("Hazards:\n  - careful (nix)\n"));
        },
        other => panic!("status for nobody: {:?}", other),
    }
}

#[test]
fn actor_filter_keeps_shared_sections() {
    let mut ledger = fresh_ledger();
    let _ = exec(&mut ledger, "bjarn", acquire("ui/", "1h"));
    let _ = exec(&mut ledger, "nix", acquire("api/", "1h"));
    let _ = exec(&mut ledger, "nix", add_task("bjarn", "for bjarn"));
    let _ = exec(&mut ledger, "bjarn", add_task("nix", "for nix"));
    let _ = exec(&mut ledger, "nix", add_decision("shared", Some("b")));
    let _ = exec(&mut ledger, "nix", record_contract("api", "v1", Some("text"), "x"));
    let _ = exec(&mut ledger, "nix", Command::Note(NoteCommand::Add { kind: "hazard".to_string(), body: "h".to_string() }));
    let (mine, everyone) = match (
        exec(&mut ledger, "nix", Command::Status { for_actor: Some("bjarn".to_string()) }),
        exec(&mut ledger, "nix", Command::Status { for_actor: None }),
    ) {
        (Ok(Reply::Status { overview: a, .. }), Ok(Reply::Status { overview: b, .. })) => (a, b),
        other => panic!("status: {:?}", other),
    };
    assert_eq!(mine.claims.len(), 1);
    assert_eq!(mine.claims[0].owner, "bjarn");
    assert_eq!(everyone.claims.len(), 2);
    assert_eq!(mine.tasks.len(), 1);
    assert_eq!(mine.tasks[0].title, "for bjarn");
    assert_eq!(everyone.tasks.len(), 2);
    assert_eq!(mine.decisions.len(), everyone.decisions.len());
    assert_eq!(mine.decisions[0].id, everyone.decisions[0].id);
    assert_eq!(mine.contracts[0].id, everyone.contracts[0].id);
    assert_eq!(mine.hazards[0].id, everyone.hazards[0].id);
}

#[test]
fn appended_events_read_back() {
    let mut ledger = fresh_ledger();
    let _ = exec(&mut ledger, "nix", add_task("bjarn", "t"));
    let last = ledger.events[ledger.events.len() - 1].id.clone();
    match exec(&mut ledger, "nix", Command::Events(EventsCommand::Show { id: last.clone() })) {
        Ok(Reply::EventShown(e)) => {
            assert_eq!(e.id, last);
            assert_eq!(e.kind, "task.added");
            assert_eq!(e.entity_type, "task");
            assert_eq!(e.entity_id, ledger.tasks[0].id);
        },
        other => panic!("events show: {:?}", other),
    }
}

#[test]
fn recorded_decision_reads_back() {
    let mut ledger = fresh_ledger();
    let d = match exec(&mut ledger, "nix", add_decision("keep it", Some("body"))) {
        Ok(Reply::DecisionAdded(d)) => d,
        other => panic!("decision add: {:?}", other),
    };
    match exec(&mut ledger, "bjarn", Command::Decision(DecisionCommand::Show { id: d.id.clone() })) {
        Ok(Reply::DecisionShown(shown)) => {
            assert_eq!(shown.id, d.id);
            assert_eq!(shown.title, "keep it");
            assert_eq!(shown.body, "body");
            assert_eq!(shown.tags, vec!["t1".to_string()]);
            assert_eq!(shown.participants, vec!["p1".to_string(), "p2".to_string()]);
        },
        other => panic!("decision show: {:?}", other),
    }
    match exec(&mut ledger, "bjarn", Command::Decision(DecisionCommand::List)) {
        Ok(Reply::Decisions(v)) => assert_eq!(v.len(), 1),
        other => panic!("decision list: {:?}", other),
    }
}

#[test]
fn run_at_uses_the_given_instant_and_ids() {
    let mut ledger = fresh_ledger();
    let cli = Cli {
        repo: Some(REPO.to_string()),
        actor: Some("nix".to_string()),
        format: None,
        command: acquire("a.rs", "1h"),
    };
    let session = Session {
        actor: "nix".to_string(),
        repo: REPO.to_string(),
        repo_id: compute_repo_id(REPO),
        body_file: None,
    };
    let drawn = Fresh {
        now: 1_700_000_000_123_456_789,
        entity_id: "01ARZ3NDEKTSV4RRFFQ69G5FAV".to_string(),
        event_id: "01ARZ3NDEKTSV4RRFFQ69G5FAW".to_string(),
    };
    match run_at(&cli, &session, drawn, &mut ledger) {
        Ok(Reply::ClaimAcquired(c)) => {
            assert_eq!(c.id, "01ARZ3NDEKTSV4RRFFQ69G5FAV");
            assert_eq!(c.acquired_at, 1_700_000_000_123_456_789);
            assert_eq!(c.expires_at, 1_700_000_000_123_456_789 + 3_600_000_000_000);
            assert_eq!(rfc3339(c.acquired_at), "2023-11-14T22:13:20.123456789+00:00");
        },
        other => panic!("acquire: {:?}", other),
    }
    let e = &ledger.events[1];
    assert_eq!(e.id, "01ARZ3NDEKTSV4RRFFQ69G5FAW");
    assert_eq!(e.created_at, 1_700_000_000_123_456_789);
}

#[test]
fn record_contract_follows_the_parse_outcome() {
    let mut ledger = fresh_ledger();
    let drawn = || Fresh { now: 5, entity_id: "c".to_string(), event_id: "e".to_string() };
    let consumers: Vec<String> = Vec::new();
    let refused = ledger.record_contract(
        "nix", "api", "v1", None, Ok("{x".to_string()), Some("expected value".to_string()), None, &consumers, "r", drawn(),
    );
    match refused {
        Err(LatchError::Json(m)) => assert_eq!(m, "expected value"),
        other => panic!("expected a json error: {:?}", other),
    }
    assert!(ledger.contracts.is_empty());
    let blank = ledger.record_contract(
        "nix", "api", "v1", None, Ok("  ".to_string()), Some("ignored".to_string()), None, &consumers, "r", drawn(),
    );
    assert!(blank.is_ok());
    let text = ledger.record_contract(
        "nix", "api", "v2", Some("text"), Ok("{x".to_string()), Some("ignored".to_string()), None, &consumers, "r", drawn(),
    );
    assert!(text.is_ok());
    assert_eq!(ledger.contracts.len(), 2);
    assert_eq!(ledger.events.len(), 3);
}
