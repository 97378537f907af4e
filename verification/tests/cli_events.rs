//! Event log commands run against an in-memory ledger.

use latch::cli::{ClaimCommand, Cli, Command, EventsCommand, NoteCommand, TaskCommand};
use latch::commands::run;
use latch::error::LatchError;
use latch::model::{Event, Ledger};
use latch::reply::{Reply, Session};
use latch::workspace::compute_repo_id;

const REPO: &str = "/tmp/latch-events";

fn events_run(ledger: &mut Ledger, command: Command) -> Result<Reply, LatchError> {
    let cli = Cli { repo: Some(REPO.to_string()), actor: Some("test-agent".to_string()), format: None, command };
    let repo = cli.resolve_repo(None, Ok("/elsewhere".to_string())).unwrap();
    let actor = cli.resolve_actor(None, "system-user".to_string());
    let session = Session { actor, repo_id: compute_repo_id(&repo), repo, body_file: None };
    run(&cli, &session, ledger)
}

fn events_init(ledger: &mut Ledger) {
    assert!(matches!(events_run(ledger, Command::Init), Ok(Reply::Initialized)));
}

fn listed_events(ledger: &mut Ledger, limit: usize) -> Vec<Event> {
    match events_run(ledger, Command::Events(EventsCommand::List { since: None, limit })) {
        Ok(Reply::Events(v)) => v,
        other => panic!("events list failed: {:?}", other),
    }
}

#[test]
fn events_list_shows_init_event() {
    let mut ledger = Ledger::new();
    events_init(&mut ledger);

    let events = listed_events(&mut ledger, 10);
    assert!(!events.is_empty());
    assert_eq!(events[0].kind, "workspace.initialized");
}

#[test]
fn events_accumulate_from_operations() {
    let mut ledger = Ledger::new();
    events_init(&mut ledger);

    // Perform some operations
    let _ = events_run(
        &mut ledger,
        Command::Claim(ClaimCommand::Acquire { path: "file.rs".to_string(), intent: None, ttl: "1h".to_string() }),
    );
    let _ = events_run(
        &mut ledger,
        Command::Note(NoteCommand::Add { kind: "hazard".to_string(), body: "watch out".to_string() }),
    );
    let _ = events_run(
        &mut ledger,
        Command::Task(TaskCommand::Add { to: "bjarn".to_string(), title: "do thing".to_string(), body: None, priority: None }),
    );

    let events = listed_events(&mut ledger, 50);

    // init + claim.acquired + note.added + task.added = 4 events
    assert_eq!(events.len(), 4);

    let kinds: Vec<&str> = events.iter().map(|e| e.kind.as_str()).collect();
    assert!(kinds.contains(&"workspace.initialized"));
    assert!(kinds.contains(&"claim.acquired"));
    assert!(kinds.contains(&"note.added"));
    assert!(kinds.contains(&"task.added"));
}

#[test]
fn events_show_by_id() {
    let mut ledger = Ledger::new();
    events_init(&mut ledger);

    // Get the init event ID
    let event_id = listed_events(&mut ledger, 1)[0].id.clone();

    // Show it
    match events_run(&mut ledger, Command::Events(EventsCommand::Show { id: event_id.clone() })) {
        Ok(Reply::EventShown(e)) => {
            assert_eq!(e.id, event_id);
            assert_eq!(e.kind, "workspace.initialized");
        },
        other => panic!("events show failed: {:?}", other),
    }
}

#[test]
fn events_show_nonexistent_fails() {
    let mut ledger = Ledger::new();
    events_init(&mut ledger);

    match events_run(&mut ledger, Command::Events(EventsCommand::Show { id: "nonexistent-id".to_string() })) {
        Err(e) => assert_eq!(e.exit_code(), 3), // not found
        other => panic!("expected not found: {:?}", other),
    }
}
