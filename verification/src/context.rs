//! The coordination picture: `status` for operators and `context` for
//! prompt injection, and their text renderings.
use vstd::prelude::*;
use crate::claims::claim_live;
use crate::clock::{format_instant, instant_ok, instant_text};
use crate::contracts::{format_name, format_text, recent_contracts};
use crate::decisions::{decision_listing, decision_status_name, decision_status_text};
use crate::model::{
    Claim, ClaimView, Contract, ContractView, Decision, DecisionView, Ledger, Note, NoteView, Task,
    TaskView,
};
use crate::notes::note_listing;
use crate::ranking::{first_n, pick, ranking, RankKey};
use crate::rows::{ranked_rows, stamp_keys, views};
use crate::tasks::{task_status_name, task_status_text, task_listing};
use crate::text::{join2, join3, join5, owned, same_text};

verus! {

/// What `status` and `context` show.
#[derive(Debug)]
pub struct Overview {
    pub actor: Option<String>,
    pub repo: String,
    pub claims: Vec<Claim>,
    pub tasks: Vec<Task>,
    pub decisions: Vec<Decision>,
    pub contracts: Vec<Contract>,
    pub hazards: Vec<Note>,
}

/// A claim is shown for `actor` at `now`: live, and owned by the actor when
/// one is given.
pub open spec fn claim_shown(c: ClaimView, actor: Option<Seq<char>>, now: int) -> bool {
    claim_live(c, now) && match actor {
        Some(a) => c.owner == a,
        None => true,
    }
}

/// The active claims shown, soonest to expire first.
pub open spec fn active_claims_spec(claims: Seq<ClaimView>, actor: Option<Seq<char>>, now: int) -> Seq<ClaimView> {
    pick(claims, ranking(soonest_expiring(claims), shown_flags(claims, actor, now)))
}

/// The sort keys that put the claims expiring soonest first.
pub open spec fn soonest_expiring(claims: Seq<ClaimView>) -> Seq<RankKey> {
    stamp_keys(Seq::new(claims.len(), |i: int| claims[i].expires_at as int))
}

/// Which claims are shown for `actor` at `now`.
pub open spec fn shown_flags(claims: Seq<ClaimView>, actor: Option<Seq<char>>, now: int) -> Seq<bool> {
    Seq::new(claims.len(), |i: int| claim_shown(claims[i], actor, now))
}

/// The `limit` most recent hazard notes.
pub open spec fn hazards_spec(notes: Seq<NoteView>, limit: int) -> Seq<NoteView> {
    first_n(note_listing(notes, Some("hazard"@)), Some(limit))
}

/// The `limit` most recent decisions.
pub open spec fn recent_decisions_spec(ds: Seq<DecisionView>, limit: int) -> Seq<DecisionView> {
    first_n(decision_listing(ds), Some(limit))
}

/// The view of an optional string slice.
pub open spec fn who(actor: Option<&str>) -> Option<Seq<char>> {
    match actor {
        Some(a) => Some(a@),
        None => None,
    }
}

/// The overview of ledger state `l` at `now` for `actor`, with at most
/// `limit` decisions, contracts and hazards.
pub open spec fn overview_matches(o: Overview, l: crate::model::LedgerView, actor: Option<Seq<char>>, repo: Seq<char>, now: int, limit: int) -> bool {
    &&& crate::model::opt_text(o.actor) == actor
    &&& o.repo@ == repo
    &&& views(o.claims@) == active_claims_spec(l.claims, actor, now)
    &&& views(o.tasks@) == task_listing(l.tasks, actor)
    &&& views(o.decisions@) == recent_decisions_spec(l.decisions, limit)
    &&& views(o.contracts@) == recent_contracts(l.contracts, Some(limit))
    &&& views(o.hazards@) == hazards_spec(l.notes, limit)
}

impl Ledger {
    /// The active claims at `now`, of `actor` when given, soonest to expire
    /// first.
    pub fn active_claims(&self, actor: Option<&str>, now: i128) -> (out: Vec<Claim>)
        ensures
            views(out@) == active_claims_spec(self@.claims, who(actor), now as int),
            expiries_ok(self@.claims) ==> expiries_ok(views(out@)),
    {
        let mut stamps: Vec<i128> = Vec::new();
        let mut chosen: Vec<bool> = Vec::new();
        let mut i: usize = 0;
        while i < self.claims.len()
            invariant
                i <= self.claims.len(),
                stamps.len() == i,
                chosen.len() == i,
                forall|k: int| 0 <= k < i ==> (#[trigger] stamps@[k]) == self.claims@[k].expires_at as int,
                forall|k: int| 0 <= k < i ==> (#[trigger] chosen@[k]) == claim_shown(self.claims@[k]@, who(actor), now as int),
            decreases self.claims.len() - i,
        {
            let c = &self.claims[i];
            stamps.push(c.expires_at as i128);
            let mine = match actor {
                Some(a) => same_text(c.owner.as_str(), a),
                None => true,
            };
            chosen.push(c.status == crate::model::ClaimStatus::Active && c.expires_at > now && mine);
            i = i + 1;
        }
        let out = ranked_rows(&self.claims, &stamps, &chosen, None);
        proof {
            let n = self@.claims.len();
            assert(stamps@.map_values(|s: i128| s as int) =~= Seq::new(n, |k: int| self@.claims[k].expires_at as int));
            assert(chosen@ =~= Seq::new(n, |k: int| claim_shown(self@.claims[k], who(actor), now as int)));
            let r = ranking(
                stamp_keys(Seq::new(n, |k: int| self@.claims[k].expires_at as int)),
                Seq::new(n, |k: int| claim_shown(self@.claims[k], who(actor), now as int)),
            );
            if expiries_ok(self@.claims) {
                assert forall|k: int| 0 <= k < views(out@).len() implies instant_ok(
                    #[trigger] views(out@)[k].expires_at as int,
                ) by {
                    assert(0 <= r[k] < n);
                    assert(views(out@)[k] == self@.claims[r[k]]);
                }
            }
        }
        out
    }

    /// The `limit` most recent hazard notes.
    pub fn hazards(&self, limit: usize) -> (out: Vec<Note>)
        ensures
            views(out@) == hazards_spec(self@.notes, limit as int),
    {
        let all = self.notes_of(Some("hazard"));
        let mut out: Vec<Note> = Vec::new();
        let mut i: usize = 0;
        while i < all.len() && i < limit
            invariant
                i <= all.len(),
                i <= limit,
                views(out@) =~= views(all@).take(i as int),
            decreases all.len() - i,
        {
            let ghost before = out@;
            let n = all[i].copy();
            out.push(n);
            assert(views(out@) =~= views(before).push(n@));
            i = i + 1;
        }
        assert(views(out@) =~= first_n(views(all@), Some(limit as int)));
        out
    }

    /// The `limit` most recent decisions.
    pub fn recent_decisions(&self, limit: usize) -> (out: Vec<Decision>)
        ensures
            views(out@) == recent_decisions_spec(self@.decisions, limit as int),
    {
        let all = self.all_decisions();
        let mut out: Vec<Decision> = Vec::new();
        let mut i: usize = 0;
        while i < all.len() && i < limit
            invariant
                i <= all.len(),
                i <= limit,
                views(out@) =~= views(all@).take(i as int),
            decreases all.len() - i,
        {
            let ghost before = out@;
            let d = all[i].copy();
            out.push(d);
            assert(views(out@) =~= views(before).push(d@));
            i = i + 1;
        }
        assert(views(out@) =~= first_n(views(all@), Some(limit as int)));
        out
    }

    /// The coordination picture for `actor` (everyone when absent) at
    /// `now`, with at most `limit` decisions, contracts and hazards.
    pub fn overview(&self, actor: Option<&str>, repo: &str, now: i128, limit: usize) -> (o: Overview)
        ensures
            overview_matches(o, self@, who(actor), repo@, now as int, limit as int),
            expiries_ok(self@.claims) ==> expiries_ok(views(o.claims@)),
    {
        Overview {
            actor: match actor {
                Some(a) => Some(owned(a)),
                None => None,
            },
            repo: owned(repo),
            claims: self.active_claims(actor, now),
            tasks: self.open_tasks(actor),
            decisions: self.recent_decisions(limit),
            contracts: self.latest_contracts(Some(limit)),
            hazards: self.hazards(limit),
        }
    }
}

/// `status`: the picture for `actor` (everyone when absent) with eight
/// recent decisions, contracts and hazards.
pub fn show_status(ledger: &Ledger, actor: Option<&str>, now: i128) -> (o: Overview)
    ensures
        overview_matches(o, ledger@, who(actor), Seq::empty(), now as int, 8),
        expiries_ok(ledger@.claims) ==> expiries_ok(views(o.claims@)),
{
    proof {
        reveal_strlit("");
        assert(""@ =~= Seq::<char>::empty());
    }
    ledger.overview(actor, "", now, 8)
}

/// `context`: the compact picture for `actor` in `repo` with five recent
/// decisions, contracts and hazards.
pub fn show_context(ledger: &Ledger, repo: &str, actor: Option<&str>, now: i128) -> (o: Overview)
    ensures
        overview_matches(o, ledger@, who(actor), repo@, now as int, 5),
        expiries_ok(ledger@.claims) ==> expiries_ok(views(o.claims@)),
{
    ledger.overview(actor, repo, now, 5)
}

/// The lines joined with a separator.
pub open spec fn joined(lines: Seq<Seq<char>>, sep: Seq<char>) -> Seq<char>
    decreases lines.len(),
{
    if lines.len() == 0 {
        Seq::empty()
    } else if lines.len() == 1 {
        lines[0]
    } else {
        joined(lines.drop_last(), sep) + sep + lines.last()
    }
}

/// The lines as a bulleted block, one `  - ` item per line.
pub open spec fn bulleted(lines: Seq<Seq<char>>) -> Seq<char>
    decreases lines.len(),
{
    if lines.len() == 0 {
        Seq::empty()
    } else {
        bulleted(lines.drop_last()) + "  - "@ + lines.last() + "\n"@
    }
}

/// `none` when there are no lines, else the lines joined by `; `.
pub open spec fn inline_spec(lines: Seq<Seq<char>>) -> Seq<char> {
    if lines.len() == 0 {
        "none"@
    } else {
        joined(lines, "; "@)
    }
}

/// A labelled group of lines, or `none`.
pub open spec fn group_spec(label: Seq<char>, lines: Seq<Seq<char>>) -> Seq<char> {
    label + ":\n"@ + if lines.len() == 0 {
        "  none\n"@
    } else {
        bulleted(lines)
    }
}

/// The views of a list of strings.
pub open spec fn line_views(v: Seq<String>) -> Seq<Seq<char>> {
    v.map_values(|s: String| s@)
}

/// Joins the lines with `; `, or gives `none` when there are none.
pub fn inline_or_none(lines: &Vec<String>) -> (out: String)
    ensures
        out@ == inline_spec(line_views(lines@)),
{
    if lines.len() == 0 {
        return owned("none");
    }
    let ghost lv = line_views(lines@);
    let mut out = lines[0].clone();
    let mut i: usize = 1;
    assert(lv.take(1).drop_last() =~= Seq::<Seq<char>>::empty());
    while i < lines.len()
        invariant
            lv == line_views(lines@),
            1 <= i <= lines.len(),
            out@ == joined(lv.take(i as int), "; "@),
        decreases lines.len() - i,
    {
        out.append("; ");
        out.append(lines[i].as_str());
        assert(lv.take(i as int + 1).drop_last() =~= lv.take(i as int));
        i = i + 1;
    }
    assert(lv.take(lines.len() as int) =~= lv);
    out
}

/// A labelled group: the label, then one `  - ` line per entry, or
/// `  none`.
pub fn group_text(label: &str, lines: &Vec<String>) -> (out: String)
    ensures
        out@ == group_spec(label@, line_views(lines@)),
{
    let mut out = join2(label, ":\n");
    if lines.len() == 0 {
        out.append("  none\n");
        return out;
    }
    let ghost head = out@;
    let ghost lv = line_views(lines@);
    let mut i: usize = 0;
    assert(lv.take(0) =~= Seq::<Seq<char>>::empty());
    while i < lines.len()
        invariant
            lv == line_views(lines@),
            i <= lines.len(),
            out@ == head + bulleted(lv.take(i as int)),
        decreases lines.len() - i,
    {
        out.append("  - ");
        out.append(lines[i].as_str());
        out.append("\n");
        assert(lv.take(i as int + 1).drop_last() =~= lv.take(i as int));
        i = i + 1;
    }
    assert(lv.take(lines.len() as int) =~= lv);
    out
}

/// How a claim is shown: owner, path, expiry, and the intent when there is
/// one.
pub open spec fn claim_line(c: ClaimView) -> Seq<char> {
    c.owner + " "@ + c.path + " until "@ + instant_text(c.expires_at as int) + if c.intent.len() == 0 {
        Seq::empty()
    } else {
        " ("@ + c.intent + ")"@
    }
}

/// How a task is shown.
pub open spec fn task_line(t: TaskView) -> Seq<char> {
    "["@ + task_status_text(t.status) + "/"@ + t.priority + "] "@ + t.title + " ("@ + t.created_by
        + " -> "@ + t.assigned_to + ")"@
}

/// How a decision is shown.
pub open spec fn decision_line(d: DecisionView) -> Seq<char> {
    "["@ + decision_status_text(d.status) + "] "@ + d.title + " ("@ + d.id + ")"@
}

/// How a contract is shown.
pub open spec fn contract_line(c: ContractView) -> Seq<char> {
    c.name + " "@ + c.version + " owned by "@ + c.owner + " ("@ + format_text(c.format) + ")"@
}

/// How a hazard is shown.
pub open spec fn hazard_line(n: NoteView) -> Seq<char> {
    n.body + " ("@ + n.author + ")"@
}

/// Every claim's expiry is an instant chrono can represent.
pub open spec fn expiries_ok(claims: Seq<ClaimView>) -> bool {
    forall|i: int| 0 <= i < claims.len() ==> instant_ok(#[trigger] claims[i].expires_at as int)
}

/// The lines for the claims.
pub fn claim_lines(claims: &Vec<Claim>) -> (out: Vec<String>)
    requires
        expiries_ok(views(claims@)),
    ensures
        line_views(out@) == views(claims@).map_values(|c: ClaimView| claim_line(c)),
{
    let mut out: Vec<String> = Vec::new();
    let mut i: usize = 0;
    while i < claims.len()
        invariant
            i <= claims.len(),
            expiries_ok(views(claims@)),
            line_views(out@) =~= views(claims@).take(i as int).map_values(|c: ClaimView| claim_line(c)),
        decreases claims.len() - i,
    {
        let c = &claims[i];
        assert(instant_ok(views(claims@)[i as int].expires_at as int));
        let until = format_instant(c.expires_at);
        let mut line = join5(c.owner.as_str(), " ", c.path.as_str(), " until ", until.as_str());
        if !c.intent.as_str().is_empty() {
            line.append(" (");
            line.append(c.intent.as_str());
            line.append(")");
        }
        assert(views(claims@)[i as int] == c@);
        assert(line@ =~= claim_line(c@));
        let ghost before = out@;
        out.push(line);
        assert(line_views(out@) =~= line_views(before).push(line@));
        i = i + 1;
    }
    out
}

/// The lines for the tasks.
pub fn task_lines(tasks: &Vec<Task>) -> (out: Vec<String>)
    ensures
        line_views(out@) == views(tasks@).map_values(|t: TaskView| task_line(t)),
{
    let mut out: Vec<String> = Vec::new();
    let mut i: usize = 0;
    while i < tasks.len()
        invariant
            i <= tasks.len(),
            line_views(out@) =~= views(tasks@).take(i as int).map_values(|t: TaskView| task_line(t)),
        decreases tasks.len() - i,
    {
        let t = &tasks[i];
        let mut line = join5("[", task_status_name(t.status), "/", t.priority.as_str(), "] ");
        line.append(t.title.as_str());
        line.append(" (");
        line.append(t.created_by.as_str());
        line.append(" -> ");
        line.append(t.assigned_to.as_str());
        line.append(")");
        let ghost before = out@;
        out.push(line);
        assert(line_views(out@) =~= line_views(before).push(line@));
        i = i + 1;
    }
    out
}

/// The lines for the decisions.
pub fn decision_lines(decisions: &Vec<Decision>) -> (out: Vec<String>)
    ensures
        line_views(out@) == views(decisions@).map_values(|d: DecisionView| decision_line(d)),
{
    let mut out: Vec<String> = Vec::new();
    let mut i: usize = 0;
    while i < decisions.len()
        invariant
            i <= decisions.len(),
            line_views(out@) =~= views(decisions@).take(i as int).map_values(|d: DecisionView| decision_line(d)),
        decreases decisions.len() - i,
    {
        let d = &decisions[i];
        let mut line = join5("[", decision_status_name(d.status), "] ", d.title.as_str(), " (");
        line.append(d.id.as_str());
        line.append(")");
        let ghost before = out@;
        out.push(line);
        assert(line_views(out@) =~= line_views(before).push(line@));
        i = i + 1;
    }
    out
}

/// The lines for the contracts.
pub fn contract_lines(contracts: &Vec<Contract>) -> (out: Vec<String>)
    ensures
        line_views(out@) == views(contracts@).map_values(|c: ContractView| contract_line(c)),
{
    let mut out: Vec<String> = Vec::new();
    let mut i: usize = 0;
    while i < contracts.len()
        invariant
            i <= contracts.len(),
            line_views(out@) =~= views(contracts@).take(i as int).map_values(|c: ContractView| contract_line(c)),
        decreases contracts.len() - i,
    {
        let c = &contracts[i];
        let mut line = join5(c.name.as_str(), " ", c.version.as_str(), " owned by ", c.owner.as_str());
        line.append(" (");
        line.append(format_name(c.format));
        line.append(")");
        let ghost before = out@;
        out.push(line);
        assert(line_views(out@) =~= line_views(before).push(line@));
        i = i + 1;
    }
    out
}

/// The lines for the hazards.
pub fn hazard_lines(hazards: &Vec<Note>) -> (out: Vec<String>)
    ensures
        line_views(out@) == views(hazards@).map_values(|n: NoteView| hazard_line(n)),
{
    let mut out: Vec<String> = Vec::new();
    let mut i: usize = 0;
    while i < hazards.len()
        invariant
            i <= hazards.len(),
            line_views(out@) =~= views(hazards@).take(i as int).map_values(|n: NoteView| hazard_line(n)),
        decreases hazards.len() - i,
    {
        let n = &hazards[i];
        let mut line = join3(n.body.as_str(), " (", n.author.as_str());
        line.append(")");
        let ghost before = out@;
        out.push(line);
        assert(line_views(out@) =~= line_views(before).push(line@));
        i = i + 1;
    }
    out
}

/// The status text: a heading, then one group each for claims, tasks,
/// decisions, contracts and hazards.
pub open spec fn status_text_spec(o: Overview) -> Seq<char> {
    (match crate::model::opt_text(o.actor) {
        Some(a) => "Latch status for "@ + a + "\n"@,
        None => "Latch status\n"@,
    }) + group_spec("Active claims"@, views(o.claims@).map_values(|c: ClaimView| claim_line(c)))
        + group_spec("Tasks"@, views(o.tasks@).map_values(|t: TaskView| task_line(t)))
        + group_spec(
        "Recent decisions"@,
        views(o.decisions@).map_values(|d: DecisionView| decision_line(d)),
    ) + group_spec("Contracts"@, views(o.contracts@).map_values(|c: ContractView| contract_line(c)))
        + group_spec("Hazards"@, views(o.hazards@).map_values(|n: NoteView| hazard_line(n)))
}

/// The context text: a heading naming the actor and the project, then one
/// line each for claims, tasks, decisions, contracts and hazards.
pub open spec fn context_text_spec(o: Overview) -> Seq<char> {
    (match crate::model::opt_text(o.actor) {
        Some(a) => "Latch context for "@ + a + " in "@ + o.repo@ + "\n"@,
        None => "Latch context for all actors in "@ + o.repo@ + "\n"@,
    }) + "Active claims: "@ + inline_spec(
        views(o.claims@).map_values(|c: ClaimView| claim_line(c)),
    ) + "\n"@ + "Assigned tasks: "@ + inline_spec(views(o.tasks@).map_values(|t: TaskView| task_line(t)))
        + "\n"@ + "Recent decisions: "@ + inline_spec(
        views(o.decisions@).map_values(|d: DecisionView| decision_line(d)),
    ) + "\n"@ + "Contracts: "@ + inline_spec(
        views(o.contracts@).map_values(|c: ContractView| contract_line(c)),
    ) + "\n"@ + "Hazards: "@ + inline_spec(views(o.hazards@).map_values(|n: NoteView| hazard_line(n)))
        + "\n"@
}

/// Renders the status picture as text.
pub fn status_text(o: &Overview) -> (out: String)
    requires
        expiries_ok(views(o.claims@)),
    ensures
        out@ == status_text_spec(*o),
{
    let mut out = match &o.actor {
        Some(a) => join3("Latch status for ", a.as_str(), "\n"),
        None => owned("Latch status\n"),
    };
    out.append(group_text("Active claims", &claim_lines(&o.claims)).as_str());
    out.append(group_text("Tasks", &task_lines(&o.tasks)).as_str());
    out.append(group_text("Recent decisions", &decision_lines(&o.decisions)).as_str());
    out.append(group_text("Contracts", &contract_lines(&o.contracts)).as_str());
    out.append(group_text("Hazards", &hazard_lines(&o.hazards)).as_str());
    out
}

/// Renders the context picture as prompt text.
pub fn context_text(o: &Overview) -> (out: String)
    requires
        expiries_ok(views(o.claims@)),
    ensures
        out@ == context_text_spec(*o),
{
    let mut out = match &o.actor {
        Some(a) => join5("Latch context for ", a.as_str(), " in ", o.repo.as_str(), "\n"),
        None => join3("Latch context for all actors in ", o.repo.as_str(), "\n"),
    };
    out.append("Active claims: ");
    out.append(inline_or_none(&claim_lines(&o.claims)).as_str());
    out.append("\n");
    out.append("Assigned tasks: ");
    out.append(inline_or_none(&task_lines(&o.tasks)).as_str());
    out.append("\n");
    out.append("Recent decisions: ");
    out.append(inline_or_none(&decision_lines(&o.decisions)).as_str());
    out.append("\n");
    out.append("Contracts: ");
    out.append(inline_or_none(&contract_lines(&o.contracts)).as_str());
    out.append("\n");
    out.append("Hazards: ");
    out.append(inline_or_none(&hazard_lines(&o.hazards)).as_str());
    out.append("\n");
    out
}

} // verus!
