//! Claim commands run against an in-memory ledger.

use latch::cli::{ClaimCommand, Cli, Command};
use latch::commands::run;
use latch::error::LatchError;
use latch::model::Ledger;
use latch::reply::{Reply, Session};
use latch::workspace::{compute_repo_id, workspace_path};

const REPO: &str = "/tmp/latch-claims";

fn rfc3339(nanos: i128) -> String {
    let secs = nanos.div_euclid(1_000_000_000) as i64;
    let sub = nanos.rem_euclid(1_000_000_000) as u32;
    chrono::DateTime::<chrono::Utc>::from_timestamp(secs, sub).unwrap().to_rfc3339()
}

fn claims_run(ledger: &mut Ledger, actor: &str, command: Command) -> Result<Reply, LatchError> {
    let cli = Cli {
        repo: Some(REPO.to_string()),
        actor: Some(actor.to_string()),
        format: None,
        command,
    };
    let repo = cli.resolve_repo(None, Ok("/elsewhere".to_string())).unwrap();
    let actor = cli.resolve_actor(None, "system-user".to_string());
    let session = Session {
        actor,
        repo_id: compute_repo_id(&repo),
        repo,
        body_file: None,
    };
    assert!(ledger.is_well_timed());
    run(&cli, &session, ledger)
}

fn claims_init(ledger: &mut Ledger) {
    let r = claims_run(ledger, "test-agent", Command::Init);
    assert!(matches!(r, Ok(Reply::Initialized)), "init failed: {:?}", r);
}

fn acquire(path: &str, intent: Option<&str>, ttl: &str) -> Command {
    Command::Claim(ClaimCommand::Acquire {
        path: path.to_string(),
        intent: intent.map(|s| s.to_string()),
        ttl: ttl.to_string(),
    })
}

#[test]
fn init_creates_workspace_and_is_idempotent() {
    let mut ledger = Ledger::new();

    // First init: the ledger file belongs at this path (the executable
    // creates it there), and the initialisation is recorded.
    claims_init(&mut ledger);
    assert_eq!(workspace_path(REPO), "/tmp/latch-claims/.agent-workspace/workspace.sqlite");
    assert_eq!(ledger.events.len(), 1);
    assert_eq!(ledger.events[0].kind, "workspace.initialized");

    // Second init (idempotent): succeeds again and changes no table.
    claims_init(&mut ledger);
    assert_eq!(ledger.events.len(), 2);
    assert!(ledger.claims.is_empty() && ledger.tasks.is_empty() && ledger.notes.is_empty());
}

#[test]
fn claim_acquire_and_list() {
    let mut ledger = Ledger::new();
    claims_init(&mut ledger);

    // Acquire a claim
    let r = claims_run(&mut ledger, "test-agent", acquire("src/main.rs", Some("refactoring"), "1h"));
    match r {
        Ok(Reply::ClaimAcquired(c)) => {
            assert_eq!(c.path, "src/main.rs");
            assert_eq!(c.owner, "test-agent");
        },
        other => panic!("acquire failed: {:?}", other),
    }

    // List claims
    match claims_run(&mut ledger, "test-agent", Command::Claim(ClaimCommand::List)) {
        Ok(Reply::Claims(v)) => assert_eq!(v.len(), 1),
        other => panic!("list failed: {:?}", other),
    }
}

#[test]
fn claim_conflict_on_same_file() {
    let mut ledger = Ledger::new();
    claims_init(&mut ledger);

    // First claim
    let r = claims_run(&mut ledger, "test-agent", acquire("src/lib.rs", None, "2h"));
    assert!(r.is_ok());

    // Second claim on same file (different actor)
    let r = claims_run(&mut ledger, "other-agent", acquire("src/lib.rs", None, "1h"));

    // Should fail with exit code 2 (claim conflict)
    match r {
        Err(e) => assert_eq!(e.exit_code(), 2),
        other => panic!("expected a conflict: {:?}", other),
    }
}

#[test]
fn claim_directory_conflicts_with_child_file() {
    let mut ledger = Ledger::new();
    claims_init(&mut ledger);

    // Claim a directory
    let r = claims_run(&mut ledger, "test-agent", acquire("src/", Some("restructure"), "2h"));
    assert!(r.is_ok());

    // Claim a file inside that directory (different actor)
    let r = claims_run(&mut ledger, "other-agent", acquire("src/main.rs", None, "1h"));
    match r {
        Err(e) => assert_eq!(e.exit_code(), 2),
        other => panic!("expected a conflict: {:?}", other),
    }
}

#[test]
fn claim_release_allows_reacquire() {
    let mut ledger = Ledger::new();
    claims_init(&mut ledger);

    // Acquire
    let claim_id = match claims_run(&mut ledger, "test-agent", acquire("README.md", None, "1h")) {
        Ok(Reply::ClaimAcquired(c)) => c.id,
        other => panic!("acquire failed: {:?}", other),
    };

    // Release
    let r = claims_run(&mut ledger, "test-agent", Command::Claim(ClaimCommand::Release { id: claim_id }));
    assert!(r.is_ok());

    // Re-acquire by different actor should succeed
    let r = claims_run(&mut ledger, "other-agent", acquire("README.md", None, "1h"));
    assert!(r.is_ok());
}

#[test]
fn claim_renew_extends_ttl() {
    let mut ledger = Ledger::new();
    claims_init(&mut ledger);

    // Acquire with short TTL
    let (claim_id, first_expires) = match claims_run(&mut ledger, "test-agent", acquire("Cargo.toml", None, "30m")) {
        Ok(Reply::ClaimAcquired(c)) => (c.id, rfc3339(c.expires_at)),
        other => panic!("acquire failed: {:?}", other),
    };

    // Renew with longer TTL
    let r = claims_run(
        &mut ledger,
        "test-agent",
        Command::Claim(ClaimCommand::Renew { id: claim_id, ttl: "4h".to_string() }),
    );
    let new_expires = match r {
        Ok(Reply::ClaimRenewed { expires_at, .. }) => rfc3339(expires_at),
        other => panic!("renew failed: {:?}", other),
    };

    assert_ne!(first_expires, new_expires);
}

#[test]
fn claim_path_traversal_rejected() {
    let mut ledger = Ledger::new();
    claims_init(&mut ledger);

    let r = claims_run(&mut ledger, "test-agent", acquire("../etc/passwd", None, "1h"));
    match r {
        Err(e) => assert_eq!(e.exit_code(), 1), // validation error
        other => panic!("expected a validation error: {:?}", other),
    }
}
