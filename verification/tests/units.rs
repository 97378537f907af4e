//! Unit checks of the library's functions on concrete values.

use std::collections::hash_map::DefaultHasher;
use std::hash::{Hash, Hasher};

use latch::claims::{normalize_path, paths_conflict};
use latch::cli::{Cli, Command, OutputFormat};
use latch::clock::{parse_ttl, ttl_out_of_range};
use latch::context::{context_text, show_context};
use latch::model::{Claim, ClaimScope, ClaimStatus, Event, Ledger};
use latch::events::handle_cmd;
use latch::cli::EventsCommand;
use latch::reply::Reply;
use latch::commands::{open_workspace, success_message};
use latch::context::{group_text, inline_or_none};
use latch::error::LatchError;
use latch::workspace::{compute_repo_id, workspace_path};

fn units_cli(repo: Option<&str>, actor: Option<&str>, format: Option<OutputFormat>) -> Cli {
    Cli {
        repo: repo.map(|s| s.to_string()),
        actor: actor.map(|s| s.to_string()),
        format,
        command: Command::Init,
    }
}

fn ttl_ns(ttl: &str) -> Result<i128, LatchError> {
    assert!(!ttl_out_of_range(ttl));
    parse_ttl(ttl)
}

#[test]
fn normalize_path_rewrites_and_refuses() {
    assert_eq!(normalize_path("src\\lib.rs").unwrap(), "src/lib.rs");
    assert_eq!(normalize_path("///etc/hosts").unwrap(), "etc/hosts");
    assert_eq!(normalize_path("frontend/").unwrap(), "frontend/");
    assert_eq!(normalize_path("").unwrap(), "");
    match normalize_path("a/../b") {
        Err(LatchError::Validation(m)) => assert_eq!(m, "Path must not contain traversal (..)"),
        other => panic!("expected a validation error: {:?}", other),
    }
    assert!(normalize_path("a..b").is_err());
}

#[test]
fn paths_conflict_by_containment() {
    assert!(paths_conflict("frontend/", "frontend/app.js"));
    assert!(paths_conflict("frontend/app.js", "frontend/"));
    assert!(paths_conflict("src/lib.rs", "src/lib.rs"));
    assert!(paths_conflict("frontend", "frontend/app.js"));
    assert!(!paths_conflict("frontend/app.js", "frontend/styles.css"));
    assert!(!paths_conflict("front", "frontend/app.js"));
    assert!(!paths_conflict("src/lib.rs", "src/lib.rs.bak"));
}

#[test]
fn ttl_parsing_in_nanoseconds() {
    assert_eq!(ttl_ns("2h").unwrap(), 7_200_000_000_000);
    assert_eq!(ttl_ns(" 30m ").unwrap(), 1_800_000_000_000);
    assert_eq!(ttl_ns("-1h").unwrap(), -3_600_000_000_000);
    assert_eq!(ttl_ns("0m").unwrap(), 0);
    match ttl_ns("2d") {
        Err(LatchError::Validation(m)) => assert_eq!(m, "Invalid TTL format: 2d. Use e.g. '2h' or '30m'"),
        other => panic!("expected a validation error: {:?}", other),
    }
    match ttl_ns("xh") {
        Err(LatchError::Validation(m)) => assert_eq!(m, "Invalid TTL: xh"),
        other => panic!("expected a validation error: {:?}", other),
    }
    match ttl_ns("h") {
        Err(LatchError::Validation(m)) => assert_eq!(m, "Invalid TTL: h"),
        other => panic!("expected a validation error: {:?}", other),
    }
}

#[test]
fn ttl_beyond_chrono_is_detected() {
    assert!(ttl_out_of_range("9999999999999h"));
    assert!(ttl_out_of_range("9223372036854775807m"));
    assert!(!ttl_out_of_range("2562047788015h"));
    assert!(!ttl_out_of_range("99999999999999999999h"));
    assert!(!ttl_out_of_range("2x"));
}

#[test]
fn exit_and_error_codes_per_variant() {
    let cases = vec![
        (LatchError::Validation("v".to_string()), 1, "validation_error", "v"),
        (LatchError::ClaimConflict("c".to_string()), 2, "claim_conflict", "claim conflict: c"),
        (LatchError::NotFound("n".to_string()), 3, "not_found", "not found: n"),
        (LatchError::Storage("s".to_string()), 4, "storage_error", "storage error: s"),
        (LatchError::Db("d".to_string()), 4, "storage_error", "database error: d"),
        (LatchError::Json("j".to_string()), 1, "json_error", "json error: j"),
        (LatchError::Io("i".to_string()), 4, "io_error", "io error: i"),
    ];
    for (e, code, name, message) in cases {
        assert_eq!(e.exit_code(), code);
        assert_eq!(e.error_code(), name);
        assert_eq!(e.message(), message);
    }
}

#[test]
fn output_format_defaults() {
    let plain = units_cli(None, None, None);
    assert!(plain.is_json());
    assert!(!plain.context_is_json());
    let json = units_cli(None, None, Some(OutputFormat::Json));
    assert!(json.is_json());
    assert!(json.context_is_json());
    let text = units_cli(None, None, Some(OutputFormat::Text));
    assert!(!text.is_json());
    assert!(!text.context_is_json());
}

#[test]
fn repo_resolution_order() {
    let flagged = units_cli(Some("/flag"), None, None);
    assert_eq!(flagged.resolve_repo(Some("/git\n".to_string()), Ok("/cwd".to_string())).unwrap(), "/flag");
    let plain = units_cli(None, None, None);
    assert_eq!(plain.resolve_repo(Some("  /git/root\n".to_string()), Ok("/cwd".to_string())).unwrap(), "/git/root");
    assert_eq!(plain.resolve_repo(None, Ok("/cwd".to_string())).unwrap(), "/cwd");
    match plain.resolve_repo(None, Err("gone".to_string())) {
        Err(e) => {
            assert_eq!(e.exit_code(), 4);
            assert_eq!(e.message(), "io error: gone");
        },
        Ok(r) => panic!("expected an io error, got {r}"),
    }
}

#[test]
fn actor_resolution_order() {
    let flagged = units_cli(None, Some("flag"), None);
    assert_eq!(flagged.resolve_actor(Some("env".to_string()), "user".to_string()), "flag");
    let plain = units_cli(None, None, None);
    assert_eq!(plain.resolve_actor(Some("env".to_string()), "user".to_string()), "env");
    assert_eq!(plain.resolve_actor(None, "user".to_string()), "user");
}

#[test]
fn workspace_path_joins_like_std() {
    assert_eq!(workspace_path("/a/b"), "/a/b/.agent-workspace/workspace.sqlite");
    assert_eq!(workspace_path("/a/b/"), "/a/b/.agent-workspace/workspace.sqlite");
    assert_eq!(workspace_path(""), ".agent-workspace/workspace.sqlite");
    let via_std = std::path::Path::new("/a/b").join(".agent-workspace").join("workspace.sqlite");
    assert_eq!(workspace_path("/a/b"), via_std.display().to_string());
}

#[test]
fn repo_id_is_the_default_hash_in_hex() {
    let id = compute_repo_id("/home/me/project");
    assert_eq!(id.len(), 16);
    assert!(id.chars().all(|c| c.is_ascii_hexdigit() && !c.is_ascii_uppercase()));
    let mut hasher = DefaultHasher::new();
    "/home/me/project".hash(&mut hasher);
    assert_eq!(id, format!("{:016x}", hasher.finish()));
    assert_eq!(id, compute_repo_id("/home/me/project"));
    assert_ne!(id, compute_repo_id("/home/me/other"));
}

#[test]
fn open_workspace_needs_the_file() {
    assert_eq!(open_workspace("/r", true).unwrap(), "/r/.agent-workspace/workspace.sqlite");
    match open_workspace("/r", false) {
        Err(e) => {
            assert_eq!(e.exit_code(), 4);
            assert_eq!(
                e.message(),
                "storage error: No workspace found at /r/.agent-workspace/workspace.sqlite. Run `latch init` first."
            );
        },
        Ok(p) => panic!("expected a storage error, got {p}"),
    }
}

#[test]
fn success_message_line() {
    assert_eq!(success_message("Workspace initialized", "/r"), "Workspace initialized at /r");
}

fn stamped_event(id: &str, created_at: i128) -> Event {
    Event {
        id: id.to_string(),
        repo_id: "r".to_string(),
        created_at,
        actor: "a".to_string(),
        kind: "k".to_string(),
        entity_type: "workspace".to_string(),
        entity_id: "workspace".to_string(),
        correlation_id: None,
        payload: Vec::new(),
    }
}

fn listed_since(ledger: &Ledger, since: &str) -> Vec<String> {
    let cmd = EventsCommand::List { since: Some(since.to_string()), limit: 50 };
    assert!(ledger.is_well_timed());
    match handle_cmd(&cmd, ledger) {
        Ok(Reply::Events(v)) => v.into_iter().map(|e| e.id).collect(),
        other => panic!("events list failed: {:?}", other),
    }
}

#[test]
fn since_compares_rfc3339_text() {
    let mut ledger = Ledger::new();
    ledger.events.push(stamped_event("epoch", 0));
    ledger.events.push(stamped_event("later", 1_500_000_000));
    ledger.events.push(stamped_event("finer", 1_500_000_001));
    ledger.events.push(stamped_event("before", -1_000_000_000));
    assert_eq!(
        listed_since(&ledger, "1970-01-01T00:00:01.500+00:00"),
        vec!["finer".to_string(), "later".to_string()]
    );
    assert_eq!(listed_since(&ledger, "1970-01-01T00:00:01.500000001+00:00"), vec!["finer".to_string()]);
    assert_eq!(listed_since(&ledger, "1970-01-01T00:00:01.501+00:00"), Vec::<String>::new());
    assert_eq!(
        listed_since(&ledger, "1970-01-01T00:00:00+00:00"),
        vec!["finer".to_string(), "later".to_string(), "epoch".to_string()]
    );
    assert_eq!(
        listed_since(&ledger, "1969-12-31T23:59:59+00:00"),
        vec!["finer".to_string(), "later".to_string(), "epoch".to_string(), "before".to_string()]
    );
}

#[test]
fn context_renders_expiry_as_rfc3339() {
    let mut ledger = Ledger::new();
    ledger.claims.push(Claim {
        id: "c1".to_string(),
        owner: "bjarn".to_string(),
        path: "src/".to_string(),
        scope: ClaimScope::Dir,
        intent: String::new(),
        status: ClaimStatus::Active,
        acquired_at: 0,
        heartbeat_at: 0,
        expires_at: 4_102_444_800_000_000_123,
        released_at: None,
    });
    assert!(ledger.is_well_timed());
    let overview = show_context(&ledger, "/p", Some("bjarn"), 1_000);
    assert_eq!(
        context_text(&overview),
        "Latch context for bjarn in /p\nActive claims: bjarn src/ until 2100-01-01T00:00:00.000000123+00:00\nAssigned tasks: none\nRecent decisions: none\nContracts: none\nHazards: none\n"
    );
}

#[test]
fn inline_and_group_rendering() {
    assert_eq!(inline_or_none(&Vec::new()), "none");
    assert_eq!(inline_or_none(&vec!["a".to_string(), "b".to_string()]), "a; b");
    assert_eq!(group_text("Tasks", &Vec::new()), "Tasks:\n  none\n");
    assert_eq!(group_text("Tasks", &vec!["x".to_string(), "y".to_string()]), "Tasks:\n  - x\n  - y\n");
}

#[test]
fn output_format_per_command() {
    let with = |format: Option<OutputFormat>, command: Command| Cli { repo: None, actor: None, format, command };
    assert!(with(None, Command::Status { for_actor: None }).output_is_json());
    assert!(!with(None, Command::Context { for_actor: None }).output_is_json());
    assert!(with(Some(OutputFormat::Json), Command::Context { for_actor: None }).output_is_json());
    assert!(!with(Some(OutputFormat::Text), Command::Context { for_actor: None }).output_is_json());
    assert!(!with(Some(OutputFormat::Text), Command::Init).output_is_json());
    assert!(with(Some(OutputFormat::Json), Command::Init).output_is_json());
}

#[test]
fn events_show_needs_no_time_check() {
    let mut ledger = Ledger::new();
    ledger.events.push(stamped_event("far", i128::MAX));
    assert!(!ledger.is_well_timed());
    match handle_cmd(&EventsCommand::Show { id: "far".to_string() }, &ledger) {
        Ok(Reply::EventShown(e)) => assert_eq!(e.created_at, i128::MAX),
        other => panic!("events show failed: {:?}", other),
    }
    match handle_cmd(&EventsCommand::List { since: None, limit: 5 }, &ledger) {
        Ok(Reply::Events(v)) => assert_eq!(v.len(), 1),
        other => panic!("events list failed: {:?}", other),
    }
}
