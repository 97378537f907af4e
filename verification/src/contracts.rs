//! Versioned contracts: schemas, API shapes and behaviour agreements.
use vstd::prelude::*;
use crate::cli::{opt_string, ContractCommand};
use crate::clock::{ulid_shaped, MAX_INSTANT_NS};
use crate::error::{ErrorView, LatchError};
use crate::journal::{event_of, fresh, list_entry, new_event, text_entry, with_event, Fresh};
use crate::reply::{answer, map_ok, Reply, ReplyView, Session};
use crate::model::{
    copy_strings, opt_text, texts, Contract, ContractFormat, ContractView, Ledger, LedgerView,
    PayloadEntry, PayloadValueView,
};
use crate::ranking::{first_n, pick, ranking};
use crate::rows::{ranked_rows, ranked_rows_by_text, stamp_keys, text_stamp_keys, views};
use crate::tasks::or_text;
use crate::decisions::{chosen_body, file_view, opt_view, read_body};
use crate::text::{chars_of, join3, join5, owned, same_text, trim, trim_chars};

verus! {

/// What serde_json's `from_str::<serde_json::Value>` makes of `text`: `None`
/// when it parses as JSON, else the `Display` text of the error.
pub uninterp spec fn json_rejection(text: Seq<char>) -> Option<Seq<char>>;

/// serde_json's `from_str::<serde_json::Value>`: `None` when `text` parses as
/// a JSON value, else the message of the parse error.
#[verifier::external_body]
fn json_problem(text: &str) -> (r: Option<String>)
    ensures
        opt_text(r) == json_rejection(text@),
{
    match serde_json::from_str::<serde_json::Value>(text) {
        Ok(_) => None,
        Err(e) => Some(e.to_string()),
    }
}

/// The text of a contract format.
pub open spec fn format_text(f: ContractFormat) -> Seq<char> {
    match f {
        ContractFormat::Json => "json"@,
        ContractFormat::Markdown => "markdown"@,
        ContractFormat::Text => "text"@,
    }
}

/// The text of a contract format.
pub fn format_name(f: ContractFormat) -> (t: &'static str)
    ensures
        t@ == format_text(f),
{
    match f {
        ContractFormat::Json => "json",
        ContractFormat::Markdown => "markdown",
        ContractFormat::Text => "text",
    }
}

/// The contract format a text names, if any.
pub open spec fn format_named(s: Seq<char>) -> Option<ContractFormat> {
    if s == "json"@ {
        Some(ContractFormat::Json)
    } else if s == "markdown"@ {
        Some(ContractFormat::Markdown)
    } else if s == "text"@ {
        Some(ContractFormat::Text)
    } else {
        None
    }
}

/// The contract format `s` names.
pub fn parse_format(s: &str) -> (f: Option<ContractFormat>)
    ensures
        f == format_named(s@),
{
    if same_text(s, "json") {
        Some(ContractFormat::Json)
    } else if same_text(s, "markdown") {
        Some(ContractFormat::Markdown)
    } else if same_text(s, "text") {
        Some(ContractFormat::Text)
    } else {
        None
    }
}

/// Some contract has this name and version.
pub open spec fn version_taken(cs: Seq<ContractView>, name: Seq<char>, version: Seq<char>) -> bool {
    exists|i: int| 0 <= i < cs.len() && (#[trigger] cs[i]).name == name && cs[i].version == version
}

/// What recording a contract does.  A name and version are recorded once;
/// a JSON body that is not blank must parse.
pub open spec fn set_contract_spec(
    l: LedgerView,
    actor: Seq<char>,
    name: Seq<char>,
    version: Seq<char>,
    format: Option<Seq<char>>,
    body: Result<Seq<char>, ErrorView>,
    owner: Option<Seq<char>>,
    consumers: Seq<Seq<char>>,
    repo_id: Seq<char>,
    now: i128,
    contract_id: Seq<char>,
    event_id: Seq<char>,
) -> (LedgerView, Result<ContractView, ErrorView>) {
    record_contract_spec(
        l,
        actor,
        name,
        version,
        format,
        body,
        match body {
            Ok(b) => json_rejection(b),
            Err(_) => None,
        },
        owner,
        consumers,
        repo_id,
        now,
        contract_id,
        event_id,
    )
}

/// What recording a contract does, given what the JSON parser made of the
/// body (`rejection`: `None` when it parses, else the parser's message; it
/// matters only for a JSON body that is not blank).  A name and version are
/// recorded once.
pub open spec fn record_contract_spec(
    l: LedgerView,
    actor: Seq<char>,
    name: Seq<char>,
    version: Seq<char>,
    format: Option<Seq<char>>,
    body: Result<Seq<char>, ErrorView>,
    rejection: Option<Seq<char>>,
    owner: Option<Seq<char>>,
    consumers: Seq<Seq<char>>,
    repo_id: Seq<char>,
    now: i128,
    contract_id: Seq<char>,
    event_id: Seq<char>,
) -> (LedgerView, Result<ContractView, ErrorView>) {
    let f = or_text(format, "json"@);
    match format_named(f) {
        None => (
            l,
            Err(ErrorView::Validation("Invalid contract format: "@ + f + ". Use json, markdown, or text"@)),
        ),
        Some(fmt) => if version_taken(l.contracts, name, version) {
            (
                l,
                Err(
                    ErrorView::Validation(
                        "Contract "@ + name + " "@ + version
                            + " already exists; create a new version instead"@,
                    ),
                ),
            )
        } else {
            match body {
                Err(e) => (l, Err(e)),
                Ok(b) => if fmt == ContractFormat::Json && trim(b).len() > 0 && rejection.is_some() {
                    (l, Err(ErrorView::Json(rejection.unwrap())))
                } else {
                    let o = or_text(owner, actor);
                    let c = ContractView {
                        id: contract_id,
                        name,
                        version,
                        format: fmt,
                        body: b,
                        owner: o,
                        consumers,
                        created_at: now,
                    };
                    let e = event_of(
                        event_id,
                        repo_id,
                        now,
                        actor,
                        "contract.set"@,
                        "contract"@,
                        contract_id,
                        seq![
                            ("name"@, PayloadValueView::Text(name)),
                            ("version"@, PayloadValueView::Text(version)),
                            ("format"@, PayloadValueView::Text(f)),
                            ("owner"@, PayloadValueView::Text(o)),
                            ("consumers"@, PayloadValueView::List(consumers)),
                        ],
                    );
                    (with_event(LedgerView { contracts: l.contracts.push(c), ..l }, e), Ok(c))
                },
            }
        },
    }
}

/// All contracts by name, and the newest first within a name.
pub open spec fn contract_listing(cs: Seq<ContractView>) -> Seq<ContractView> {
    pick(
        cs,
        ranking(
            text_stamp_keys(
                Seq::new(cs.len(), |i: int| cs[i].name),
                Seq::new(cs.len(), |i: int| -1 - cs[i].created_at),
            ),
            Seq::new(cs.len(), |i: int| true),
        ),
    )
}

/// The `limit` most recently created contracts.
pub open spec fn recent_contracts(cs: Seq<ContractView>, limit: Option<int>) -> Seq<ContractView> {
    first_n(
        pick(
            cs,
            ranking(
                stamp_keys(Seq::new(cs.len(), |i: int| -1 - cs[i].created_at)),
                Seq::new(cs.len(), |i: int| true),
            ),
        ),
        limit,
    )
}

/// The contracts named `name`, most recently created first.
pub open spec fn named_contracts(cs: Seq<ContractView>, name: Seq<char>) -> Seq<ContractView> {
    pick(
        cs,
        ranking(
            stamp_keys(Seq::new(cs.len(), |i: int| -1 - cs[i].created_at)),
            Seq::new(cs.len(), |i: int| cs[i].name == name),
        ),
    )
}

/// The first contract with this name and version.
pub open spec fn first_version(cs: Seq<ContractView>, name: Seq<char>, version: Seq<char>) -> Option<ContractView>
    decreases cs.len(),
{
    if cs.len() == 0 {
        None
    } else if cs[0].name == name && cs[0].version == version {
        Some(cs[0])
    } else {
        first_version(cs.drop_first(), name, version)
    }
}

/// What `contract get` answers: the given version, or the newest contract
/// of that name.
pub open spec fn get_contract_spec(cs: Seq<ContractView>, name: Seq<char>, version: Option<Seq<char>>) -> Result<ContractView, ErrorView> {
    match version {
        Some(v) => match first_version(cs, name, v) {
            Some(c) => Ok(c),
            None => Err(ErrorView::NotFound("Contract "@ + name + " "@ + v + " not found"@)),
        },
        None => if named_contracts(cs, name).len() > 0 {
            Ok(named_contracts(cs, name)[0])
        } else {
            Err(ErrorView::NotFound("Contract "@ + name + " not found"@))
        },
    }
}

impl Ledger {
    fn find_version(&self, name: &str, v: &str) -> (r: Option<usize>)
        ensures
            match r {
                Some(i) => i < self.contracts.len() && first_version(self@.contracts, name@, v@) == Some(self@.contracts[i as int]),
                None => first_version(self@.contracts, name@, v@).is_none(),
            },
    {
        let ghost all = self@.contracts;
        let mut i: usize = 0;
        assert(all.skip(0) =~= all);
        while i < self.contracts.len()
            invariant
                all == self@.contracts,
                i <= self.contracts.len(),
                first_version(all, name@, v@) == first_version(all.skip(i as int), name@, v@),
            decreases self.contracts.len() - i,
        {
            assert(all.skip(i as int)[0] == all[i as int]);
            if same_text(self.contracts[i].name.as_str(), name) && same_text(self.contracts[i].version.as_str(), v) {
                return Some(i);
            }
            assert(all.skip(i as int).drop_first() =~= all.skip(i as int + 1));
            i = i + 1;
        }
        None
    }

    /// The most recently created contract named `name`.
    pub fn newest_named(&self, name: &str) -> (r: Result<Contract, LatchError>)
        ensures
            match r {
                Ok(c) => get_contract_spec(self@.contracts, name@, None) == Ok::<ContractView, ErrorView>(c@),
                Err(e) => get_contract_spec(self@.contracts, name@, None) == Err::<ContractView, ErrorView>(e@),
            },
    {
        let ghost all = self@.contracts;
            let mut stamps: Vec<i128> = Vec::new();
            let mut chosen: Vec<bool> = Vec::new();
            let mut i: usize = 0;
            while i < self.contracts.len()
                invariant
                    i <= self.contracts.len(),
                    stamps.len() == i,
                    chosen.len() == i,
                    forall|k: int| 0 <= k < i ==> (#[trigger] stamps@[k]) == -1 - (self.contracts@[k].created_at as int),
                    forall|k: int| 0 <= k < i ==> (#[trigger] chosen@[k]) == (self.contracts@[k].name@ == name@),
                decreases self.contracts.len() - i,
            {
                stamps.push(-1 - self.contracts[i].created_at);
                chosen.push(same_text(self.contracts[i].name.as_str(), name));
                i = i + 1;
            }
            let top = ranked_rows(&self.contracts, &stamps, &chosen, Some(1));
            proof {
                let n = self@.contracts.len();
                assert(stamps@.map_values(|s: i128| s as int) =~= Seq::new(n, |k: int| -1 - self@.contracts[k].created_at));
                assert(chosen@ =~= Seq::new(n, |k: int| self@.contracts[k].name == name@));
            }
            assert(views(self.contracts@) == all);
            let ghost named = named_contracts(all, name@);
            assert(views(top@) == first_n(named, Some(1int)));
            if top.len() > 0 {
                assert(top@[0]@ == views(top@)[0]);
                assert(named.len() > 0);
                assert(views(top@)[0] == named[0]);
                Ok(top[0].copy())
            } else {
                Err(LatchError::NotFound(join3("Contract ", name, " not found")))
            }
            }

    fn version_exists(&self, name: &str, version: &str) -> (r: bool)
        ensures
            r == version_taken(self@.contracts, name@, version@),
    {
        let mut i: usize = 0;
        while i < self.contracts.len()
            invariant
                i <= self.contracts.len(),
                forall|k: int| 0 <= k < i ==> !((#[trigger] self@.contracts[k]).name == name@ && self@.contracts[k].version == version@),
            decreases self.contracts.len() - i,
        {
            assert(self@.contracts[i as int] == self.contracts@[i as int]@);
            if same_text(self.contracts[i].name.as_str(), name) && same_text(self.contracts[i].version.as_str(), version) {
                return true;
            }
            i = i + 1;
        }
        false
    }

    /// Records contract `name` at `version`: runs serde_json's parser on the
    /// body, then records or refuses.
    pub fn set_contract(
        &mut self,
        actor: &str,
        name: &str,
        version: &str,
        format: Option<&str>,
        body: Result<String, LatchError>,
        owner: Option<&str>,
        consumers: &Vec<String>,
        repo_id: &str,
        fresh: Fresh,
    ) -> (r: Result<Contract, LatchError>)
        ensures
            (final(self)@, match r {
                Ok(c) => Ok::<ContractView, ErrorView>(c@),
                Err(e) => Err(e@),
            }) == set_contract_spec(
                old(self)@,
                actor@,
                name@,
                version@,
                match format {
                    Some(f) => Some(f@),
                    None => None,
                },
                match body {
                    Ok(b) => Ok::<Seq<char>, ErrorView>(b@),
                    Err(e) => Err(e@),
                },
                match owner {
                    Some(o) => Some(o@),
                    None => None,
                },
                texts(consumers@),
                repo_id@,
                fresh.now,
                fresh.entity_id@,
                fresh.event_id@,
            ),
    {
        let rejection = match &body {
            Ok(b) => json_problem(b.as_str()),
            Err(_) => None,
        };
        self.record_contract(actor, name, version, format, body, rejection, owner, consumers, repo_id, fresh)
    }

    /// Records contract `name` at `version`, given what the JSON parser
    /// made of the body (`rejection`).
    pub fn record_contract(
        &mut self,
        actor: &str,
        name: &str,
        version: &str,
        format: Option<&str>,
        body: Result<String, LatchError>,
        rejection: Option<String>,
        owner: Option<&str>,
        consumers: &Vec<String>,
        repo_id: &str,
        fresh: Fresh,
    ) -> (r: Result<Contract, LatchError>)
        ensures
            (final(self)@, match r {
                Ok(c) => Ok::<ContractView, ErrorView>(c@),
                Err(e) => Err(e@),
            }) == record_contract_spec(
                old(self)@,
                actor@,
                name@,
                version@,
                match format {
                    Some(f) => Some(f@),
                    None => None,
                },
                match body {
                    Ok(b) => Ok::<Seq<char>, ErrorView>(b@),
                    Err(e) => Err(e@),
                },
                opt_text(rejection),
                match owner {
                    Some(o) => Some(o@),
                    None => None,
                },
                texts(consumers@),
                repo_id@,
                fresh.now,
                fresh.entity_id@,
                fresh.event_id@,
            ),
    {
        let f = match format {
            Some(f) => f,
            None => "json",
        };
        let fmt = match parse_format(f) {
            Some(x) => x,
            None => {
                return Err(
                    LatchError::Validation(join3("Invalid contract format: ", f, ". Use json, markdown, or text")),
                );
            },
        };
        if self.version_exists(name, version) {
            return Err(
                LatchError::Validation(
                    join5("Contract ", name, " ", version, " already exists; create a new version instead"),
                ),
            );
        }
        let b = match body {
            Ok(b) => b,
            Err(e) => return Err(e),
        };
        if fmt == ContractFormat::Json && trim_chars(&chars_of(b.as_str())).len() > 0 {
            match rejection {
                Some(m) => return Err(LatchError::Json(m)),
                None => {},
            }
        }
        let o = match owner {
            Some(o) => owned(o),
            None => owned(actor),
        };
        let contract = Contract {
            id: fresh.entity_id,
            name: owned(name),
            version: owned(version),
            format: fmt,
            body: b,
            owner: o,
            consumers: copy_strings(consumers),
            created_at: fresh.now,
        };
        let mut payload: Vec<PayloadEntry> = Vec::new();
        payload.push(text_entry("name", name));
        payload.push(text_entry("version", version));
        payload.push(text_entry("format", f));
        payload.push(text_entry("owner", contract.owner.as_str()));
        payload.push(list_entry("consumers", copy_strings(consumers)));
        let event = new_event(
            fresh.event_id,
            repo_id,
            fresh.now,
            actor,
            "contract.set",
            "contract",
            contract.id.as_str(),
            payload,
        );
        let stored = contract.copy();
        self.contracts.push(stored);
        assert(self@.contracts =~= old(self)@.contracts.push(contract@));
        self.append_event(event);
        assert(payload@.map_values(|q: PayloadEntry| q@) =~= seq![
            ("name"@, PayloadValueView::Text(name@)),
            ("version"@, PayloadValueView::Text(version@)),
            ("format"@, PayloadValueView::Text(f@)),
            ("owner"@, PayloadValueView::Text(contract@.owner)),
            ("consumers"@, PayloadValueView::List(texts(consumers@))),
        ]);
        Ok(contract)
    }

    /// All contracts, by name, newest first within a name.
    pub fn contracts_by_name(&self) -> (out: Vec<Contract>)
        ensures
            views(out@) == contract_listing(self@.contracts),
    {
        let mut names: Vec<Vec<char>> = Vec::new();
        let mut stamps: Vec<i128> = Vec::new();
        let mut chosen: Vec<bool> = Vec::new();
        let mut i: usize = 0;
        while i < self.contracts.len()
            invariant
                i <= self.contracts.len(),
                names.len() == i,
                stamps.len() == i,
                chosen.len() == i,
                forall|k: int| 0 <= k < i ==> (#[trigger] names@[k])@ == self.contracts@[k].name@,
                forall|k: int| 0 <= k < i ==> (#[trigger] stamps@[k]) == -1 - (self.contracts@[k].created_at as int),
                forall|k: int| 0 <= k < i ==> (#[trigger] chosen@[k]),
            decreases self.contracts.len() - i,
        {
            names.push(chars_of(self.contracts[i].name.as_str()));
            stamps.push(-1 - self.contracts[i].created_at);
            chosen.push(true);
            i = i + 1;
        }
        let out = ranked_rows_by_text(&self.contracts, &names, &stamps, &chosen, None);
        proof {
            let n = self@.contracts.len();
            assert(names@.map_values(|v: Vec<char>| v@) =~= Seq::new(n, |k: int| self@.contracts[k].name));
            assert(stamps@.map_values(|s: i128| s as int) =~= Seq::new(n, |k: int| -1 - self@.contracts[k].created_at));
            assert(chosen@ =~= Seq::new(n, |k: int| true));
        }
        out
    }

    /// The `limit` most recently created contracts.
    pub fn latest_contracts(&self, limit: Option<usize>) -> (out: Vec<Contract>)
        ensures
            views(out@) == recent_contracts(
                self@.contracts,
                match limit {
                    Some(n) => Some(n as int),
                    None => None,
                },
            ),
    {
        let mut stamps: Vec<i128> = Vec::new();
        let mut chosen: Vec<bool> = Vec::new();
        let mut i: usize = 0;
        while i < self.contracts.len()
            invariant
                i <= self.contracts.len(),
                stamps.len() == i,
                chosen.len() == i,
                forall|k: int| 0 <= k < i ==> (#[trigger] stamps@[k]) == -1 - (self.contracts@[k].created_at as int),
                forall|k: int| 0 <= k < i ==> (#[trigger] chosen@[k]),
            decreases self.contracts.len() - i,
        {
            stamps.push(-1 - self.contracts[i].created_at);
            chosen.push(true);
            i = i + 1;
        }
        let out = ranked_rows(&self.contracts, &stamps, &chosen, limit);
        proof {
            let n = self@.contracts.len();
            assert(stamps@.map_values(|s: i128| s as int) =~= Seq::new(n, |k: int| -1 - self@.contracts[k].created_at));
            assert(chosen@ =~= Seq::new(n, |k: int| true));
        }
        out
    }

    /// The contract `name` at `version`, or the newest contract of that name.
    pub fn get_contract(&self, name: &str, version: Option<&str>) -> (r: Result<Contract, LatchError>)
        ensures
            match r {
                Ok(c) => get_contract_spec(self@.contracts, name@, opt_view(version)) == Ok::<ContractView, ErrorView>(c@),
                Err(e) => get_contract_spec(self@.contracts, name@, opt_view(version)) == Err::<ContractView, ErrorView>(e@),
            },
    {
        match version {
            Some(v) => match self.find_version(name, v) {
                Some(i) => Ok(self.contracts[i].copy()),
                None => Err(LatchError::NotFound(join5("Contract ", name, " ", v, " not found"))),
            },
            None => self.newest_named(name),
        }
    }
}

/// What a contract command does, given the instant and the fresh ids.
pub open spec fn contract_step(
    l: LedgerView,
    cmd: ContractCommand,
    s: Session,
    now: i128,
    entity_id: Seq<char>,
    event_id: Seq<char>,
) -> (LedgerView, Result<ReplyView, ErrorView>) {
    match cmd {
        ContractCommand::Record { name, version, format, body, body_file, owner, consumer } => {
            let (l2, r) = set_contract_spec(
                l,
                s.actor@,
                name@,
                version@,
                opt_string(format),
                chosen_body(opt_string(body), file_view(s.body_file)),
                opt_string(owner),
                texts(consumer@),
                s.repo_id@,
                now,
                entity_id,
                event_id,
            );
            (l2, map_ok(r, |c: ContractView| ReplyView::ContractRecorded(c)))
        },
        ContractCommand::List => (l, Ok(ReplyView::Contracts(contract_listing(l.contracts)))),
        ContractCommand::Get { name, version } => (
            l,
            map_ok(
                get_contract_spec(l.contracts, name@, opt_string(version)),
                |c: ContractView| ReplyView::ContractShown(c),
            ),
        ),
    }
}

/// Runs a contract command with a given instant and fresh ids.
pub fn apply_contract(cmd: &ContractCommand, session: &Session, fresh: Fresh, ledger: &mut Ledger) -> (r: Result<Reply, LatchError>)
    ensures
        (final(ledger)@, answer(r)) == contract_step(
            old(ledger)@,
            *cmd,
            *session,
            fresh.now,
            fresh.entity_id@,
            fresh.event_id@,
        ),
{
    match cmd {
        ContractCommand::Record { name, version, format, body, body_file, owner, consumer } => {
            let f = match format {
                Some(s) => Some(s.as_str()),
                None => None,
            };
            let b = match body {
                Some(s) => Some(s.as_str()),
                None => None,
            };
            let o = match owner {
                Some(s) => Some(s.as_str()),
                None => None,
            };
            let text = read_body(b, &session.body_file);
            match ledger.set_contract(
                session.actor.as_str(),
                name.as_str(),
                version.as_str(),
                f,
                text,
                o,
                consumer,
                session.repo_id.as_str(),
                fresh,
            ) {
                Ok(c) => Ok(Reply::ContractRecorded(c)),
                Err(e) => Err(e),
            }
        },
        ContractCommand::List => Ok(Reply::Contracts(ledger.contracts_by_name())),
        ContractCommand::Get { name, version } => {
            let v = match version {
                Some(s) => Some(s.as_str()),
                None => None,
            };
            match ledger.get_contract(name.as_str(), v) {
                Ok(c) => Ok(Reply::ContractShown(c)),
                Err(e) => Err(e),
            }
        },
    }
}

/// Runs a contract command: reads the clock and draws fresh ids.
pub fn handle(cmd: &ContractCommand, session: &Session, ledger: &mut Ledger) -> (r: Result<Reply, LatchError>)
    ensures
        exists|now: i128, entity_id: Seq<char>, event_id: Seq<char>|
            0 <= now <= MAX_INSTANT_NS && ulid_shaped(entity_id) && ulid_shaped(event_id) && #[trigger] contract_step(old(ledger)@, *cmd, *session, now, entity_id, event_id)
                == (final(ledger)@, answer(r)),
{
    let f = fresh();
    let ghost now = f.now;
    let ghost a = f.entity_id@;
    let ghost b = f.event_id@;
    let r = apply_contract(cmd, session, f, ledger);
    assert(contract_step(old(ledger)@, *cmd, *session, now, a, b) == (ledger@, answer(r)));
    r
}

} // verus!
