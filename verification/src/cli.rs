//! The command line: global options, the commands, and how the project
//! root, the actor and the output format are resolved.
use vstd::prelude::*;
use crate::error::{ErrorView, LatchError};
use crate::text::{chars_of, string_of, trim, trim_chars};

verus! {

/// The output format chosen with `--format`.
#[derive(Clone, Copy, Debug, PartialEq, Eq, Structural)]
pub enum OutputFormat {
    Json,
    Text,
}

/// The global options and the command.
#[derive(Debug)]
pub struct Cli {
    /// Project root override.
    pub repo: Option<String>,
    /// Actor id (overrides `LATCH_ACTOR` and the system user name).
    pub actor: Option<String>,
    /// Output format.
    pub format: Option<OutputFormat>,
    pub command: Command,
}

/// The commands.
#[derive(Debug)]
pub enum Command {
    /// Initialize the workspace ledger.
    Init,
    /// Show coordination status, for one actor when given.
    Status { for_actor: Option<String> },
    /// Compact prompt-injection context, for one actor when given.
    Context { for_actor: Option<String> },
    /// Manage file and directory claims.
    Claim(ClaimCommand),
    /// Manage architectural decisions.
    Decision(DecisionCommand),
    /// Manage API and schema contracts.
    Contract(ContractCommand),
    /// Manage task handoffs.
    Task(TaskCommand),
    /// Manage coordination notes and hazards.
    Note(NoteCommand),
    /// Query the event log.
    Events(EventsCommand),
}

/// Path claims.
#[derive(Debug)]
pub enum ClaimCommand {
    Acquire { path: String, intent: Option<String>, ttl: String },
    List,
    Renew { id: String, ttl: String },
    Release { id: String },
}

/// Decisions.
#[derive(Debug)]
pub enum DecisionCommand {
    Add {
        title: String,
        body: Option<String>,
        body_file: Option<String>,
        tag: Vec<String>,
        participant: Vec<String>,
    },
    List,
    Show { id: String },
    Supersede { id: String, title: String, body: Option<String>, body_file: Option<String> },
}

/// Contracts.
#[derive(Debug)]
pub enum ContractCommand {
    /// `contract set`: records a new version of a contract.
    Record {
        name: String,
        version: String,
        format: Option<String>,
        body: Option<String>,
        body_file: Option<String>,
        owner: Option<String>,
        consumer: Vec<String>,
    },
    List,
    /// One version of a contract, or its newest.
    Get { name: String, version: Option<String> },
}

/// Tasks.
#[derive(Debug)]
pub enum TaskCommand {
    Add { to: String, title: String, body: Option<String>, priority: Option<String> },
    List { for_actor: Option<String> },
    Take { id: String },
    Done { id: String },
    Cancel { id: String },
}

/// Notes.
#[derive(Debug)]
pub enum NoteCommand {
    Add { kind: String, body: String },
    List { kind: Option<String> },
    Remove { id: String },
}

/// The event log.
#[derive(Debug)]
pub enum EventsCommand {
    List { since: Option<String>, limit: usize },
    Show { id: String },
}

/// Where the project root comes from: the `--repo` option, else the
/// top-level directory that git reports (trimmed), else the working
/// directory (or the error reading it).
pub open spec fn repo_choice(
    flag: Option<Seq<char>>,
    git_toplevel: Option<Seq<char>>,
    cwd: Result<Seq<char>, Seq<char>>,
) -> Result<Seq<char>, ErrorView> {
    match flag {
        Some(r) => Ok(r),
        None => match git_toplevel {
            Some(out) => Ok(trim(out)),
            None => match cwd {
                Ok(d) => Ok(d),
                Err(m) => Err(ErrorView::Io(m)),
            },
        },
    }
}

/// Who is speaking: the `--actor` option, else `LATCH_ACTOR`, else the
/// system user name.
pub open spec fn actor_choice(flag: Option<Seq<char>>, env: Option<Seq<char>>, user: Seq<char>) -> Seq<char> {
    match flag {
        Some(a) => a,
        None => match env {
            Some(e) => e,
            None => user,
        },
    }
}

/// The view of an optional string.
pub open spec fn opt_string(v: Option<String>) -> Option<Seq<char>> {
    match v {
        Some(s) => Some(s@),
        None => None,
    }
}

impl Cli {
    /// The project root.  `git_toplevel` is the output of a successful
    /// `git rev-parse --show-toplevel`, if any; `cwd` is the working
    /// directory or the message of the error reading it.
    pub fn resolve_repo(&self, git_toplevel: Option<String>, cwd: Result<String, String>) -> (r: Result<String, LatchError>)
        ensures
            match r {
                Ok(p) => repo_choice(
                    opt_string(self.repo),
                    opt_string(git_toplevel),
                    match cwd {
                        Ok(d) => Ok::<Seq<char>, Seq<char>>(d@),
                        Err(m) => Err(m@),
                    },
                ) == Ok::<Seq<char>, ErrorView>(p@),
                Err(e) => repo_choice(
                    opt_string(self.repo),
                    opt_string(git_toplevel),
                    match cwd {
                        Ok(d) => Ok::<Seq<char>, Seq<char>>(d@),
                        Err(m) => Err(m@),
                    },
                ) == Err::<Seq<char>, ErrorView>(e@),
            },
    {
        match &self.repo {
            Some(r) => Ok(r.clone()),
            None => match git_toplevel {
                Some(out) => Ok(string_of(&trim_chars(&chars_of(out.as_str())))),
                None => match cwd {
                    Ok(d) => Ok(d),
                    Err(m) => Err(LatchError::Io(m)),
                },
            },
        }
    }

    /// The actor.  `env_actor` is the value of `LATCH_ACTOR`, if set;
    /// `user` is the system user name.
    pub fn resolve_actor(&self, env_actor: Option<String>, user: String) -> (a: String)
        ensures
            a@ == actor_choice(opt_string(self.actor), opt_string(env_actor), user@),
    {
        match &self.actor {
            Some(a) => a.clone(),
            None => match env_actor {
                Some(e) => e,
                None => user,
            },
        }
    }

    /// Whether output is JSON: the default for every command but `context`.
    pub fn is_json(&self) -> (r: bool)
        ensures
            r == (self.format != Some(OutputFormat::Text)),
    {
        match self.format {
            Some(OutputFormat::Text) => false,
            _ => true,
        }
    }

    /// Whether `context` output is JSON: only on request, since its default
    /// is prompt text.
    pub fn context_is_json(&self) -> (r: bool)
        ensures
            r == (self.format == Some(OutputFormat::Json)),
    {
        match self.format {
            Some(OutputFormat::Json) => true,
            _ => false,
        }
    }

    /// Whether the answer to this command line is printed as JSON: for
    /// `context` only on request, for every other command unless text is
    /// asked for.
    pub fn output_is_json(&self) -> (r: bool)
        ensures
            r == match self.command {
                Command::Context { .. } => self.format == Some(OutputFormat::Json),
                _ => self.format != Some(OutputFormat::Text),
            },
    {
        match self.command {
            Command::Context { .. } => self.context_is_json(),
            _ => self.is_json(),
        }
    }
}

} // verus!
