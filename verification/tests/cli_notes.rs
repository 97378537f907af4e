//! Note commands run against an in-memory ledger.

use latch::cli::{Cli, Command, NoteCommand};
use latch::commands::run;
use latch::error::LatchError;
use latch::model::Ledger;
use latch::notes::kind_name;
use latch::reply::{Reply, Session};
use latch::workspace::compute_repo_id;

const REPO: &str = "/tmp/latch-notes";

fn notes_run(ledger: &mut Ledger, command: Command) -> Result<Reply, LatchError> {
    let cli = Cli { repo: Some(REPO.to_string()), actor: Some("test-agent".to_string()), format: None, command };
    let repo = cli.resolve_repo(None, Ok("/elsewhere".to_string())).unwrap();
    let actor = cli.resolve_actor(None, "system-user".to_string());
    let session = Session { actor, repo_id: compute_repo_id(&repo), repo, body_file: None };
    run(&cli, &session, ledger)
}

fn notes_init(ledger: &mut Ledger) {
    assert!(matches!(notes_run(ledger, Command::Init), Ok(Reply::Initialized)));
}

fn add(kind: &str, body: &str) -> Command {
    Command::Note(NoteCommand::Add { kind: kind.to_string(), body: body.to_string() })
}

fn note_count(ledger: &mut Ledger, kind: Option<&str>) -> usize {
    match notes_run(ledger, Command::Note(NoteCommand::List { kind: kind.map(|k| k.to_string()) })) {
        Ok(Reply::Notes(v)) => v.len(),
        other => panic!("note list failed: {:?}", other),
    }
}

#[test]
fn note_add_and_list() {
    let mut ledger = Ledger::new();
    notes_init(&mut ledger);

    // Add a hazard note
    match notes_run(&mut ledger, add("hazard", "cargo test mutates target artifacts")) {
        Ok(Reply::NoteAdded(n)) => assert_eq!(kind_name(n.kind), "hazard"),
        other => panic!("note add failed: {:?}", other),
    }

    // Add an observation
    let r = notes_run(&mut ledger, add("observation", "Build takes 3 minutes on first run"));
    assert!(r.is_ok());

    // List all notes
    assert_eq!(note_count(&mut ledger, None), 2);

    // List filtered by kind
    assert_eq!(note_count(&mut ledger, Some("hazard")), 1);
}

#[test]
fn note_remove() {
    let mut ledger = Ledger::new();
    notes_init(&mut ledger);

    let note_id = match notes_run(&mut ledger, add("handoff", "Left off at claims module")) {
        Ok(Reply::NoteAdded(n)) => n.id,
        other => panic!("note add failed: {:?}", other),
    };

    // Remove it
    let r = notes_run(&mut ledger, Command::Note(NoteCommand::Remove { id: note_id }));
    assert!(r.is_ok());

    // List should be empty
    assert_eq!(note_count(&mut ledger, None), 0);
}

#[test]
fn note_invalid_kind_rejected() {
    let mut ledger = Ledger::new();
    notes_init(&mut ledger);

    match notes_run(&mut ledger, add("invalid", "should fail")) {
        Err(e) => assert_eq!(e.exit_code(), 1), // validation error
        other => panic!("expected a validation error: {:?}", other),
    }
}

#[test]
fn note_remove_nonexistent_fails() {
    let mut ledger = Ledger::new();
    notes_init(&mut ledger);

    match notes_run(&mut ledger, Command::Note(NoteCommand::Remove { id: "nonexistent-id".to_string() })) {
        Err(e) => assert_eq!(e.exit_code(), 3), // not found
        other => panic!("expected not found: {:?}", other),
    }
}
