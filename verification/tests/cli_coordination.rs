//! Decisions, contracts, status and prompt context run against an
//! in-memory ledger.

use latch::cli::{
    ClaimCommand, Cli, Command, ContractCommand, DecisionCommand, NoteCommand, OutputFormat,
    TaskCommand,
};
use latch::commands::run;
use latch::decisions::decision_status_name;
use latch::error::LatchError;
use latch::model::Ledger;
use latch::reply::{Reply, Session};
use latch::workspace::compute_repo_id;

const REPO: &str = "/tmp/latch-coordination";

fn coordination_cli(actor: &str, format: Option<OutputFormat>, command: Command) -> Cli {
    Cli { repo: Some(REPO.to_string()), actor: Some(actor.to_string()), format, command }
}

fn coordination_run_cli(ledger: &mut Ledger, cli: &Cli) -> Result<Reply, LatchError> {
    let repo = cli.resolve_repo(None, Ok("/elsewhere".to_string())).unwrap();
    let actor = cli.resolve_actor(None, "system-user".to_string());
    let session = Session { actor, repo_id: compute_repo_id(&repo), repo, body_file: None };
    run(cli, &session, ledger)
}

fn coordination_run(ledger: &mut Ledger, actor: &str, command: Command) -> Result<Reply, LatchError> {
    coordination_run_cli(ledger, &coordination_cli(actor, None, command))
}

fn coordination_init(ledger: &mut Ledger) {
    assert!(matches!(coordination_run(ledger, "test-agent", Command::Init), Ok(Reply::Initialized)));
}

fn strings(items: &[&str]) -> Vec<String> {
    items.iter().map(|s| s.to_string()).collect()
}

#[test]
fn decision_lifecycle_and_contract_get_are_persisted() {
    let mut ledger = Ledger::new();
    coordination_init(&mut ledger);

    let decision = coordination_run(
        &mut ledger,
        "bjarn",
        Command::Decision(DecisionCommand::Add {
            title: "Use append-only coordination ledger".to_string(),
            body: Some("Store decisions as events plus materialized views.".to_string()),
            body_file: None,
            tag: strings(&["architecture"]),
            participant: strings(&["bjarn", "nix"]),
        }),
    );
    let decision_id = match decision {
        Ok(Reply::DecisionAdded(d)) => {
            assert_eq!(decision_status_name(d.status), "active");
            d.id
        },
        other => panic!("decision add failed: {:?}", other),
    };

    match coordination_run(&mut ledger, "nix", Command::Decision(DecisionCommand::Show { id: decision_id.clone() })) {
        Ok(Reply::DecisionShown(d)) => {
            assert_eq!(d.body, "Store decisions as events plus materialized views.");
            assert_eq!(d.participants[0], "bjarn");
            assert_eq!(d.tags[0], "architecture");
        },
        other => panic!("decision show failed: {:?}", other),
    }

    let superseded = coordination_run(
        &mut ledger,
        "bjarn",
        Command::Decision(DecisionCommand::Supersede {
            id: decision_id.clone(),
            title: "Use append-only coordination ledger v2".to_string(),
            body: Some("Keep the event log canonical and derive compact views.".to_string()),
            body_file: None,
        }),
    );
    let new_decision_id = match superseded {
        Ok(Reply::DecisionSuperseded(d)) => d.id,
        other => panic!("decision supersede failed: {:?}", other),
    };

    match coordination_run(&mut ledger, "nix", Command::Decision(DecisionCommand::Show { id: decision_id })) {
        Ok(Reply::DecisionShown(d)) => {
            assert_eq!(decision_status_name(d.status), "superseded");
            assert_eq!(d.superseded_by, Some(new_decision_id));
        },
        other => panic!("decision show old failed: {:?}", other),
    }

    let contract = coordination_run(
        &mut ledger,
        "nix",
        Command::Contract(ContractCommand::Record {
            name: "validation-result".to_string(),
            version: "v1".to_string(),
            format: None,
            body: Some(r#"{"success":true,"diagnostics":[]}"#.to_string()),
            body_file: None,
            owner: Some("nix".to_string()),
            consumer: strings(&["bjarn"]),
        }),
    );
    match contract {
        Ok(Reply::ContractRecorded(c)) => {
            assert_eq!(c.name, "validation-result");
            assert_eq!(c.consumers[0], "bjarn");
        },
        other => panic!("contract set failed: {:?}", other),
    }

    let fetched = coordination_run(
        &mut ledger,
        "bjarn",
        Command::Contract(ContractCommand::Get { name: "validation-result".to_string(), version: Some("v1".to_string()) }),
    );
    match fetched {
        Ok(Reply::ContractShown(c)) => {
            let body: serde_json::Value = serde_json::from_str(&c.body).unwrap();
            assert_eq!(body["success"], true);
            assert_eq!(c.owner, "nix");
        },
        other => panic!("contract get failed: {:?}", other),
    }
}

#[test]
fn status_json_and_context_text_summarize_coordination_state() {
    let mut ledger = Ledger::new();
    coordination_init(&mut ledger);

    let r = coordination_run(
        &mut ledger,
        "bjarn",
        Command::Claim(ClaimCommand::Acquire {
            path: "frontend/".to_string(),
            intent: Some("UI polish".to_string()),
            ttl: "1h".to_string(),
        }),
    );
    assert!(r.is_ok(), "claim acquire failed: {:?}", r);
    let r = coordination_run(
        &mut ledger,
        "nix",
        Command::Task(TaskCommand::Add {
            to: "bjarn".to_string(),
            title: "Review context contract".to_string(),
            body: None,
            priority: Some("high".to_string()),
        }),
    );
    assert!(r.is_ok(), "task add failed: {:?}", r);
    let r = coordination_run(
        &mut ledger,
        "bjarn",
        Command::Decision(DecisionCommand::Add {
            title: "Context defaults to prompt text".to_string(),
            body: Some("JSON remains opt-in for context because prompts are the first consumer.".to_string()),
            body_file: None,
            tag: Vec::new(),
            participant: Vec::new(),
        }),
    );
    assert!(r.is_ok(), "decision add failed: {:?}", r);
    let r = coordination_run(
        &mut ledger,
        "nix",
        Command::Contract(ContractCommand::Record {
            name: "context-output".to_string(),
            version: "v1".to_string(),
            format: None,
            body: Some(r#"{"default":"text","json_flag":"--format json"}"#.to_string()),
            body_file: None,
            owner: None,
            consumer: strings(&["bjarn"]),
        }),
    );
    assert!(r.is_ok(), "contract set failed: {:?}", r);
    let r = coordination_run(
        &mut ledger,
        "nix",
        Command::Note(NoteCommand::Add {
            kind: "hazard".to_string(),
            body: "Do not overwrite another agent's active claim.".to_string(),
        }),
    );
    assert!(r.is_ok(), "note add failed: {:?}", r);

    let status_cli = coordination_cli(
        "bjarn",
        Some(OutputFormat::Json),
        Command::Status { for_actor: Some("bjarn".to_string()) },
    );
    assert!(status_cli.is_json());
    match coordination_run_cli(&mut ledger, &status_cli) {
        Ok(Reply::Status { overview, .. }) => {
            assert_eq!(overview.actor, Some("bjarn".to_string()));
            assert_eq!(overview.claims[0].path, "frontend/");
            assert_eq!(overview.tasks[0].title, "Review context contract");
            assert_eq!(overview.decisions[0].title, "Context defaults to prompt text");
            assert_eq!(overview.contracts[0].name, "context-output");
            assert_eq!(overview.hazards[0].body, "Do not overwrite another agent's active claim.");
        },
        other => panic!("status json failed: {:?}", other),
    }

    let context_cli = coordination_cli("bjarn", None, Command::Context { for_actor: Some("bjarn".to_string()) });
    let context_text = match coordination_run_cli(&mut ledger, &context_cli) {
        Ok(Reply::Context { text, .. }) => text,
        other => panic!("context text failed: {:?}", other),
    };
    assert!(context_text.starts_with("Latch context for bjarn"));
    assert!(context_text.contains("frontend/"));
    assert!(context_text.contains("Review context contract"));
    assert!(context_text.contains("Context defaults to prompt text"));
    assert!(context_text.contains("context-output"));
    assert!(context_text.contains("Do not overwrite another agent's active claim."));
    assert!(
        !context_cli.context_is_json() && serde_json::from_str::<serde_json::Value>(&context_text).is_err(),
        "context without --format json should default to text"
    );

    let context_json_cli = coordination_cli(
        "bjarn",
        Some(OutputFormat::Json),
        Command::Context { for_actor: Some("bjarn".to_string()) },
    );
    assert!(context_json_cli.context_is_json());
    match coordination_run_cli(&mut ledger, &context_json_cli) {
        Ok(Reply::Context { overview, .. }) => {
            assert_eq!(overview.actor, Some("bjarn".to_string()));
            assert_eq!(overview.tasks[0].title, "Review context contract");
        },
        other => panic!("context json failed: {:?}", other),
    }
}
