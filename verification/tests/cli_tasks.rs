//! Task commands run against an in-memory ledger.

use latch::cli::{Cli, Command, TaskCommand};
use latch::commands::run;
use latch::error::LatchError;
use latch::model::{Ledger, TaskStatus};
use latch::reply::{Reply, Session};
use latch::tasks::task_status_name;
use latch::workspace::compute_repo_id;

const REPO: &str = "/tmp/latch-tasks";

fn tasks_run(ledger: &mut Ledger, command: Command) -> Result<Reply, LatchError> {
    let cli = Cli { repo: Some(REPO.to_string()), actor: Some("nix".to_string()), format: None, command };
    let repo = cli.resolve_repo(None, Ok("/elsewhere".to_string())).unwrap();
    let actor = cli.resolve_actor(None, "system-user".to_string());
    let session = Session { actor, repo_id: compute_repo_id(&repo), repo, body_file: None };
    run(&cli, &session, ledger)
}

fn tasks_init(ledger: &mut Ledger) {
    assert!(matches!(tasks_run(ledger, Command::Init), Ok(Reply::Initialized)));
}

fn add(to: &str, title: &str, priority: Option<&str>) -> Command {
    Command::Task(TaskCommand::Add {
        to: to.to_string(),
        title: title.to_string(),
        body: None,
        priority: priority.map(|p| p.to_string()),
    })
}

fn listed(ledger: &mut Ledger, for_actor: Option<&str>) -> usize {
    match tasks_run(ledger, Command::Task(TaskCommand::List { for_actor: for_actor.map(|a| a.to_string()) })) {
        Ok(Reply::Tasks(v)) => v.len(),
        other => panic!("task list failed: {:?}", other),
    }
}

fn moved_to(r: Result<Reply, LatchError>) -> &'static str {
    match r {
        Ok(Reply::TaskMoved { status, .. }) => task_status_name(status),
        other => panic!("task move failed: {:?}", other),
    }
}

#[test]
fn task_add_and_list() {
    let mut ledger = Ledger::new();
    tasks_init(&mut ledger);

    // Add a task
    match tasks_run(&mut ledger, add("bjarn", "Implement contracts module", Some("high"))) {
        Ok(Reply::TaskAdded(t)) => {
            assert_eq!(task_status_name(t.status), "open");
            assert_eq!(t.assigned_to, "bjarn");
        },
        other => panic!("task add failed: {:?}", other),
    }

    // List all tasks
    assert_eq!(listed(&mut ledger, None), 1);

    // List filtered by assignee
    assert_eq!(listed(&mut ledger, Some("bjarn")), 1);

    // List for different actor (empty)
    assert_eq!(listed(&mut ledger, Some("nobody")), 0);
}

#[test]
fn task_lifecycle_open_taken_done() {
    let mut ledger = Ledger::new();
    tasks_init(&mut ledger);

    // Add
    let task_id = match tasks_run(&mut ledger, add("nix", "Write tests", None)) {
        Ok(Reply::TaskAdded(t)) => t.id,
        other => panic!("task add failed: {:?}", other),
    };

    // Take
    let status = moved_to(tasks_run(&mut ledger, Command::Task(TaskCommand::Take { id: task_id.clone() })));
    assert_eq!(status, "taken");

    // Done
    let status = moved_to(tasks_run(&mut ledger, Command::Task(TaskCommand::Done { id: task_id.clone() })));
    assert_eq!(status, "done");

    // Should not appear in active list anymore
    assert_eq!(listed(&mut ledger, None), 0);
}

#[test]
fn task_cancel() {
    let mut ledger = Ledger::new();
    tasks_init(&mut ledger);

    let task_id = match tasks_run(&mut ledger, add("bjarn", "Canceled task", None)) {
        Ok(Reply::TaskAdded(t)) => t.id,
        other => panic!("task add failed: {:?}", other),
    };

    let r = tasks_run(&mut ledger, Command::Task(TaskCommand::Cancel { id: task_id }));
    assert!(matches!(r, Ok(Reply::TaskMoved { status: TaskStatus::Canceled, .. })));

    // Not in active list
    assert_eq!(listed(&mut ledger, None), 0);
}

#[test]
fn task_take_wrong_status_fails() {
    let mut ledger = Ledger::new();
    tasks_init(&mut ledger);

    let task_id = match tasks_run(&mut ledger, add("nix", "Status test", None)) {
        Ok(Reply::TaskAdded(t)) => t.id,
        other => panic!("task add failed: {:?}", other),
    };

    // Take it
    let _ = tasks_run(&mut ledger, Command::Task(TaskCommand::Take { id: task_id.clone() }));

    // Try to take again (already taken, not open)
    match tasks_run(&mut ledger, Command::Task(TaskCommand::Take { id: task_id })) {
        Err(e) => assert_eq!(e.exit_code(), 3), // not found (wrong status)
        other => panic!("expected not found: {:?}", other),
    }
}
