//! Path claims: acquiring, listing, renewing and releasing, with
//! path-containment conflict detection.
use vstd::prelude::*;
use crate::clock::{ulid_shaped, instant_ok, parse_ttl, ttl_out_of_range, ttl_outcome, ttl_overflows, MAX_INSTANT_NS, MIN_INSTANT_NS};
use crate::cli::{opt_string, ClaimCommand};
use crate::journal::fresh;
use crate::reply::{answer, map_ok, Reply, ReplyView, Session};
use crate::error::{ErrorView, LatchError};
use crate::journal::{event_of, instant_entry, new_event, text_entry, with_event, Fresh};
use crate::model::{Claim, ClaimScope, ClaimStatus, ClaimView, Ledger, LedgerView, PayloadEntry, PayloadValueView};
use crate::ranking::{pick, ranking, RankKey};
use crate::rows::{ranked_rows, stamp_keys, views};
use crate::text::{
    join2, chars_of, contains_double_dot, ends_with_char, forward_slashes, has_double_dot, has_prefix,
    join3, owned, same_text, slashes_forward, starts_with_chars, string_of,
    strip_leading_slashes, trim_leading_slashes,
};

verus! {

/// A claim path as stored: backslashes become slashes, traversal (`..`) is
/// refused, and leading slashes are dropped.
pub open spec fn normalized(raw: Seq<char>) -> Result<Seq<char>, ErrorView> {
    let p = slashes_forward(raw);
    if has_double_dot(p) {
        Err(ErrorView::Validation("Path must not contain traversal (..)"@))
    } else {
        Ok(strip_leading_slashes(p))
    }
}

/// Normalises a project-relative claim path.
pub fn normalize_path(path: &str) -> (r: Result<String, LatchError>)
    ensures
        match r {
            Ok(p) => normalized(path@) == Ok::<Seq<char>, ErrorView>(p@),
            Err(e) => normalized(path@) == Err::<Seq<char>, ErrorView>(e@),
        },
{
    let p = forward_slashes(&chars_of(path));
    if contains_double_dot(&p) {
        return Err(LatchError::Validation(owned("Path must not contain traversal (..)")));
    }
    Ok(string_of(&trim_leading_slashes(&p)))
}

/// A path as a directory: with a trailing slash.
pub open spec fn dir_form(p: Seq<char>) -> Seq<char> {
    if ends_with_char(p, '/') {
        p
    } else {
        p.push('/')
    }
}

/// Two claim paths conflict when they are equal or one contains the other
/// as a directory.
pub open spec fn paths_overlap(a: Seq<char>, b: Seq<char>) -> bool {
    a == b || has_prefix(b, dir_form(a)) || has_prefix(a, dir_form(b))
}

fn dir_chars(p: &Vec<char>) -> (out: Vec<char>)
    ensures
        out@ == dir_form(p@),
{
    let mut out = p.clone();
    if !(p.len() > 0 && p[p.len() - 1] == '/') {
        out.push('/');
    }
    out
}

/// Whether two claim paths conflict.
pub fn paths_conflict(a: &str, b: &str) -> (r: bool)
    ensures
        r == paths_overlap(a@, b@),
{
    if same_text(a, b) {
        return true;
    }
    let ac = chars_of(a);
    let bc = chars_of(b);
    starts_with_chars(&bc, &dir_chars(&ac)) || starts_with_chars(&ac, &dir_chars(&bc))
}

/// A claim blocks others at instant `now`: it is active and not yet expired.
pub open spec fn claim_live(c: ClaimView, now: int) -> bool {
    c.status == ClaimStatus::Active && c.expires_at > now
}

/// The claims that block a claim on `path` at instant `now`, in table order.
pub open spec fn conflicts_with(claims: Seq<ClaimView>, path: Seq<char>, now: int) -> Seq<ClaimView> {
    claims.filter(|c: ClaimView| claim_live(c, now) && paths_overlap(c.path, path))
}

/// The scope a normalised path implies.
pub open spec fn scope_of(p: Seq<char>) -> ClaimScope {
    if ends_with_char(p, '/') {
        ClaimScope::Dir
    } else {
        ClaimScope::File
    }
}

/// The text of a scope.
pub open spec fn scope_text(s: ClaimScope) -> Seq<char> {
    match s {
        ClaimScope::Dir => "dir"@,
        ClaimScope::File => "file"@,
    }
}

/// The text of a claim's scope.
pub fn scope_name(s: ClaimScope) -> (t: &'static str)
    ensures
        t@ == scope_text(s),
{
    match s {
        ClaimScope::Dir => "dir",
        ClaimScope::File => "file",
    }
}

/// The text that an absent intent is stored as.
pub open spec fn intent_text(intent: Option<Seq<char>>) -> Seq<char> {
    match intent {
        Some(i) => i,
        None => Seq::empty(),
    }
}

/// Acquiring panics in chrono: the time-to-live is beyond `TimeDelta`, or the
/// expiry of a claim that would be granted is beyond `DateTime<Utc>`.
pub open spec fn acquire_panics(l: LedgerView, path: Seq<char>, ttl: Seq<char>, now: int) -> bool {
    match normalized(path) {
        Err(_) => false,
        Ok(p) => ttl_overflows(ttl) || match ttl_outcome(ttl) {
            Ok(span) => conflicts_with(l.claims, p, now).len() == 0 && !instant_ok(now + span),
            Err(_) => false,
        },
    }
}

/// What acquiring a claim does: the ledger after it and the claim granted,
/// or the error and the ledger unchanged.
pub open spec fn acquire_spec(
    l: LedgerView,
    actor: Seq<char>,
    path: Seq<char>,
    intent: Option<Seq<char>>,
    ttl: Seq<char>,
    repo_id: Seq<char>,
    now: i128,
    claim_id: Seq<char>,
    event_id: Seq<char>,
) -> (LedgerView, Result<ClaimView, ErrorView>) {
    match normalized(path) {
        Err(e) => (l, Err(e)),
        Ok(p) => match ttl_outcome(ttl) {
            Err(e) => (l, Err(e)),
            Ok(span) => if conflicts_with(l.claims, p, now as int).len() > 0 {
                (l, Err(ErrorView::ClaimConflict("Path "@ + p + " is already claimed"@)))
            } else {
                let c = ClaimView {
                    id: claim_id,
                    owner: actor,
                    path: p,
                    scope: scope_of(p),
                    intent: intent_text(intent),
                    status: ClaimStatus::Active,
                    acquired_at: now,
                    heartbeat_at: now,
                    expires_at: (now + span) as i128,
                    released_at: None,
                };
                let e = event_of(
                    event_id,
                    repo_id,
                    now,
                    actor,
                    "claim.acquired"@,
                    "claim"@,
                    claim_id,
                    seq![
                        ("path"@, PayloadValueView::Text(p)),
                        ("scope"@, PayloadValueView::Text(scope_text(scope_of(p)))),
                        ("intent"@, PayloadValueView::Text(intent_text(intent))),
                        ("ttl"@, PayloadValueView::Text(ttl)),
                    ],
                );
                (with_event(LedgerView { claims: l.claims.push(c), ..l }, e), Ok(c))
            },
        },
    }
}

/// The claims listed by `claim list` at `now`: active and unexpired, most
/// recently acquired first.
pub open spec fn claim_listing(claims: Seq<ClaimView>, now: int) -> Seq<ClaimView> {
    pick(claims, ranking(newest_acquired(claims), live_flags(claims, now)))
}

/// The sort keys that put the most recently acquired claims first.
pub open spec fn newest_acquired(claims: Seq<ClaimView>) -> Seq<RankKey> {
    stamp_keys(acquired_stamps(claims))
}

/// The stamps that put the most recently acquired claims first.
pub open spec fn acquired_stamps(claims: Seq<ClaimView>) -> Seq<int> {
    Seq::new(claims.len(), |i: int| -1 - claims[i].acquired_at)
}

/// Which claims are live at `now`.
pub open spec fn live_flags(claims: Seq<ClaimView>, now: int) -> Seq<bool> {
    Seq::new(claims.len(), |i: int| claim_live(claims[i], now))
}

/// A claim that `renew` or `release` of `id` acts on.
pub open spec fn held(c: ClaimView, id: Seq<char>) -> bool {
    c.id == id && c.status == ClaimStatus::Active
}

/// Some claim is held under `id`.
pub open spec fn any_held(claims: Seq<ClaimView>, id: Seq<char>) -> bool {
    exists|i: int| 0 <= i < claims.len() && held(#[trigger] claims[i], id)
}

/// Renewing panics in chrono: the time-to-live or the new expiry is out of
/// chrono's range.
pub open spec fn renew_panics(ttl: Seq<char>, now: int) -> bool {
    ttl_overflows(ttl) || match ttl_outcome(ttl) {
        Ok(span) => !instant_ok(now + span),
        Err(_) => false,
    }
}

/// What renewing claim `id` does: every held claim with that id gets a new
/// heartbeat and expiry; the new expiry is returned.
pub open spec fn renew_spec(
    l: LedgerView,
    actor: Seq<char>,
    id: Seq<char>,
    ttl: Seq<char>,
    repo_id: Seq<char>,
    now: i128,
    event_id: Seq<char>,
) -> (LedgerView, Result<i128, ErrorView>) {
    match ttl_outcome(ttl) {
        Err(e) => (l, Err(e)),
        Ok(span) => {
            let expires = (now + span) as i128;
            if !any_held(l.claims, id) {
                (l, Err(ErrorView::NotFound("Claim "@ + id + " not found or not active"@)))
            } else {
                let claims = l.claims.map_values(
                    |c: ClaimView|
                        if held(c, id) {
                            ClaimView { heartbeat_at: now, expires_at: expires, ..c }
                        } else {
                            c
                        },
                );
                let e = event_of(
                    event_id,
                    repo_id,
                    now,
                    actor,
                    "claim.renewed"@,
                    "claim"@,
                    id,
                    seq![
                        ("new_expires_at"@, PayloadValueView::Instant(expires)),
                        ("ttl"@, PayloadValueView::Text(ttl)),
                    ],
                );
                (with_event(LedgerView { claims, ..l }, e), Ok(expires))
            }
        },
    }
}

/// What releasing claim `id` does: every held claim with that id is marked
/// released at `now`.
pub open spec fn release_spec(
    l: LedgerView,
    actor: Seq<char>,
    id: Seq<char>,
    repo_id: Seq<char>,
    now: i128,
    event_id: Seq<char>,
) -> (LedgerView, Result<(), ErrorView>) {
    if !any_held(l.claims, id) {
        (l, Err(ErrorView::NotFound("Claim "@ + id + " not found or not active"@)))
    } else {
        let claims = l.claims.map_values(
            |c: ClaimView|
                if held(c, id) {
                    ClaimView { status: ClaimStatus::Released, released_at: Some(now), ..c }
                } else {
                    c
                },
        );
        let e = event_of(event_id, repo_id, now, actor, "claim.released"@, "claim"@, id, seq![]);
        (with_event(LedgerView { claims, ..l }, e), Ok(()))
    }
}

impl Ledger {
    /// The active, unexpired claims that conflict with `path` at `now`.
    pub fn check_conflicts(&self, path: &str, now: i128) -> (out: Vec<Claim>)
        ensures
            views(out@) == conflicts_with(self@.claims, path@, now as int),
    {
        let ghost all = self@.claims;
        let ghost pred = |c: ClaimView| claim_live(c, now as int) && paths_overlap(c.path, path@);
        let mut out: Vec<Claim> = Vec::new();
        let mut i: usize = 0;
        while i < self.claims.len()
            invariant
                all == self@.claims,
                pred == (|c: ClaimView| claim_live(c, now as int) && paths_overlap(c.path, path@)),
                i <= self.claims.len(),
                views(out@) == all.take(i as int).filter(pred),
            decreases self.claims.len() - i,
        {
            proof {
                reveal_with_fuel(Seq::<_>::filter, 1);
                assert(all.take(i as int + 1).drop_last() =~= all.take(i as int));
            }
            let c = &self.claims[i];
            assert(c@ == all[i as int]);
            if c.status == ClaimStatus::Active && c.expires_at > now && paths_conflict(
                c.path.as_str(),
                path,
            ) {
                let d = c.copy();
                let ghost before = out@;
                out.push(d);
                assert(views(out@) =~= views(before).push(d@));
            }
            i = i + 1;
        }
        assert(all.take(self.claims.len() as int) =~= all);
        out
    }

    /// Acquires a claim on `path` for `ttl`, unless an active, unexpired
    /// claim conflicts with it.
    pub fn acquire_claim(
        &mut self,
        actor: &str,
        path: &str,
        intent: Option<&str>,
        ttl: &str,
        repo_id: &str,
        fresh: Fresh,
    ) -> (r: Result<Claim, LatchError>)
        requires
            instant_ok(fresh.now as int),
            !acquire_panics(old(self)@, path@, ttl@, fresh.now as int),
        ensures
            (final(self)@, match r {
                Ok(c) => Ok::<ClaimView, ErrorView>(c@),
                Err(e) => Err(e@),
            }) == acquire_spec(
                old(self)@,
                actor@,
                path@,
                match intent {
                    Some(i) => Some(i@),
                    None => None,
                },
                ttl@,
                repo_id@,
                fresh.now,
                fresh.entity_id@,
                fresh.event_id@,
            ),
    {
        let p = match normalize_path(path) {
            Ok(p) => p,
            Err(e) => return Err(e),
        };
        let span = match parse_ttl(ttl) {
            Ok(s) => s,
            Err(e) => return Err(e),
        };
        let conflicts = self.check_conflicts(p.as_str(), fresh.now);
        if conflicts.len() > 0 {
            return Err(LatchError::ClaimConflict(join3("Path ", p.as_str(), " is already claimed")));
        }
        assert(conflicts_with(old(self)@.claims, p@, fresh.now as int).len() == 0);
        let expires = fresh.now + span;
        let pc = chars_of(p.as_str());
        let scope = if pc.len() > 0 && pc[pc.len() - 1] == '/' {
            ClaimScope::Dir
        } else {
            ClaimScope::File
        };
        let intent_s = match intent {
            Some(i) => owned(i),
            None => String::new(),
        };
        let claim = Claim {
            id: fresh.entity_id,
            owner: owned(actor),
            path: p,
            scope,
            intent: intent_s,
            status: ClaimStatus::Active,
            acquired_at: fresh.now,
            heartbeat_at: fresh.now,
            expires_at: expires,
            released_at: None,
        };
        let mut payload: Vec<PayloadEntry> = Vec::new();
        payload.push(text_entry("path", claim.path.as_str()));
        payload.push(text_entry("scope", scope_name(scope)));
        payload.push(text_entry("intent", claim.intent.as_str()));
        payload.push(text_entry("ttl", ttl));
        let event = new_event(
            fresh.event_id,
            repo_id,
            fresh.now,
            actor,
            "claim.acquired",
            "claim",
            claim.id.as_str(),
            payload,
        );
        let stored = claim.copy();
        self.claims.push(stored);
        assert(self@.claims =~= old(self)@.claims.push(claim@));
        self.append_event(event);
        assert(payload@.map_values(|q: PayloadEntry| q@) =~= seq![
            ("path"@, PayloadValueView::Text(claim@.path)),
            ("scope"@, PayloadValueView::Text(scope_text(claim@.scope))),
            ("intent"@, PayloadValueView::Text(claim@.intent)),
            ("ttl"@, PayloadValueView::Text(ttl@)),
        ]);
        Ok(claim)
    }

    /// The active, unexpired claims at `now`, most recently acquired first.
    pub fn live_claims(&self, now: i128) -> (out: Vec<Claim>)
        ensures
            views(out@) == claim_listing(self@.claims, now as int),
    {
        let mut stamps: Vec<i128> = Vec::new();
        let mut chosen: Vec<bool> = Vec::new();
        let mut i: usize = 0;
        while i < self.claims.len()
            invariant
                i <= self.claims.len(),
                stamps.len() == i,
                chosen.len() == i,
                forall|k: int| 0 <= k < i ==> (#[trigger] stamps@[k]) == -1 - (self.claims@[k].acquired_at as int),
                forall|k: int| 0 <= k < i ==> (#[trigger] chosen@[k]) == claim_live(self.claims@[k]@, now as int),
            decreases self.claims.len() - i,
        {
            let c = &self.claims[i];
            stamps.push(-1 - c.acquired_at);
            chosen.push(c.status == ClaimStatus::Active && c.expires_at > now);
            i = i + 1;
        }
        let out = ranked_rows(&self.claims, &stamps, &chosen, None);
        proof {
            let n = self@.claims.len();
            assert(stamps@.map_values(|s: i128| s as int) =~= Seq::new(n, |k: int| -1 - self@.claims[k].acquired_at));
            assert(chosen@ =~= Seq::new(n, |k: int| claim_live(self@.claims[k], now as int)));
            assert(views(self.claims@) == self@.claims);
        }
        out
    }

    /// Extends the expiry of the active claim `id` to `ttl` from now.
    pub fn renew_claim(&mut self, actor: &str, id: &str, ttl: &str, repo_id: &str, fresh: Fresh) -> (r: Result<i128, LatchError>)
        requires
            instant_ok(fresh.now as int),
            !renew_panics(ttl@, fresh.now as int),
        ensures
            (final(self)@, match r {
                Ok(t) => Ok::<i128, ErrorView>(t),
                Err(e) => Err(e@),
            }) == renew_spec(old(self)@, actor@, id@, ttl@, repo_id@, fresh.now, fresh.event_id@),
    {
        let span = match parse_ttl(ttl) {
            Ok(s) => s,
            Err(e) => return Err(e),
        };
        let expires = fresh.now + span;
        let ghost all = old(self)@.claims;
        let mut updated: Vec<Claim> = Vec::new();
        let mut found = false;
        let mut i: usize = 0;
        while i < self.claims.len()
            invariant
                all == self@.claims,
                i <= self.claims.len(),
                views(updated@) =~= all.take(i as int).map_values(
                    |c: ClaimView|
                        if held(c, id@) {
                            ClaimView { heartbeat_at: fresh.now, expires_at: expires, ..c }
                        } else {
                            c
                        },
                ),
                found == exists|k: int| 0 <= k < i && held(#[trigger] all[k], id@),
            decreases self.claims.len() - i,
        {
            let c = &self.claims[i];
            let mut d = c.copy();
            if c.status == ClaimStatus::Active && same_text(c.id.as_str(), id) {
                d.heartbeat_at = fresh.now;
                d.expires_at = expires;
                found = true;
            }
            assert(held(all[i as int], id@) == (c.status == ClaimStatus::Active && c.id@ == id@));
            let ghost before = updated@;
            updated.push(d);
            assert(views(updated@) =~= views(before).push(d@));
            i = i + 1;
        }
        assert(all.take(self.claims.len() as int) =~= all);
        if !found {
            return Err(LatchError::NotFound(join3("Claim ", id, " not found or not active")));
        }
        self.claims = updated;
        let mut payload: Vec<PayloadEntry> = Vec::new();
        payload.push(instant_entry("new_expires_at", expires));
        payload.push(text_entry("ttl", ttl));
        let event = new_event(fresh.event_id, repo_id, fresh.now, actor, "claim.renewed", "claim", id, payload);
        self.append_event(event);
        assert(payload@.map_values(|q: PayloadEntry| q@) =~= seq![
            ("new_expires_at"@, PayloadValueView::Instant(expires)),
            ("ttl"@, PayloadValueView::Text(ttl@)),
        ]);
        Ok(expires)
    }

    /// Marks the active claim `id` released.
    pub fn release_claim(&mut self, actor: &str, id: &str, repo_id: &str, fresh: Fresh) -> (r: Result<(), LatchError>)
        ensures
            (final(self)@, match r {
                Ok(_) => Ok::<(), ErrorView>(()),
                Err(e) => Err(e@),
            }) == release_spec(old(self)@, actor@, id@, repo_id@, fresh.now, fresh.event_id@),
    {
        let ghost all = old(self)@.claims;
        let mut updated: Vec<Claim> = Vec::new();
        let mut found = false;
        let mut i: usize = 0;
        while i < self.claims.len()
            invariant
                all == self@.claims,
                i <= self.claims.len(),
                views(updated@) =~= all.take(i as int).map_values(
                    |c: ClaimView|
                        if held(c, id@) {
                            ClaimView {
                                status: ClaimStatus::Released,
                                released_at: Some(fresh.now),
                                ..c
                            }
                        } else {
                            c
                        },
                ),
                found == exists|k: int| 0 <= k < i && held(#[trigger] all[k], id@),
            decreases self.claims.len() - i,
        {
            let c = &self.claims[i];
            let mut d = c.copy();
            if c.status == ClaimStatus::Active && same_text(c.id.as_str(), id) {
                d.status = ClaimStatus::Released;
                d.released_at = Some(fresh.now);
                found = true;
            }
            assert(held(all[i as int], id@) == (c.status == ClaimStatus::Active && c.id@ == id@));
            let ghost before = updated@;
            updated.push(d);
            assert(views(updated@) =~= views(before).push(d@));
            i = i + 1;
        }
        assert(all.take(self.claims.len() as int) =~= all);
        if !found {
            return Err(LatchError::NotFound(join3("Claim ", id, " not found or not active")));
        }
        self.claims = updated;
        let payload: Vec<PayloadEntry> = Vec::new();
        assert(payload@.map_values(|q: PayloadEntry| q@) =~= seq![]);
        let event = new_event(fresh.event_id, repo_id, fresh.now, actor, "claim.released", "claim", id, payload);
        self.append_event(event);
        Ok(())
    }
}

/// The chrono range checks that a claim command performs fail at `now`
/// (the command would panic).
pub open spec fn claim_panics(l: LedgerView, cmd: ClaimCommand, now: int) -> bool {
    match cmd {
        ClaimCommand::Acquire { path, intent, ttl } => acquire_panics(l, path@, ttl@, now),
        ClaimCommand::Renew { id, ttl } => renew_panics(ttl@, now),
        _ => false,
    }
}

/// The time-to-live a claim command names.
pub open spec fn command_ttl(cmd: ClaimCommand) -> Seq<char> {
    match cmd {
        ClaimCommand::Acquire { path, intent, ttl } => ttl@,
        ClaimCommand::Renew { id, ttl } => ttl@,
        _ => Seq::empty(),
    }
}

/// The refusal of a time-to-live that chrono cannot hold.
pub open spec fn ttl_range_error(ttl: Seq<char>) -> ErrorView {
    ErrorView::Validation("TTL out of range: "@ + ttl)
}

/// What a claim command does, given the instant and the fresh ids.
pub open spec fn claim_step(
    l: LedgerView,
    cmd: ClaimCommand,
    s: Session,
    now: i128,
    entity_id: Seq<char>,
    event_id: Seq<char>,
) -> (LedgerView, Result<ReplyView, ErrorView>) {
    match cmd {
        ClaimCommand::Acquire { path, intent, ttl } => {
            let (l2, r) = acquire_spec(
                l,
                s.actor@,
                path@,
                opt_string(intent),
                ttl@,
                s.repo_id@,
                now,
                entity_id,
                event_id,
            );
            (l2, map_ok(r, |c: ClaimView| ReplyView::ClaimAcquired(c)))
        },
        ClaimCommand::List => (l, Ok(ReplyView::Claims(claim_listing(l.claims, now as int)))),
        ClaimCommand::Renew { id, ttl } => {
            let (l2, r) = renew_spec(l, s.actor@, id@, ttl@, s.repo_id@, now, event_id);
            (l2, map_ok(r, |t: i128| ReplyView::ClaimRenewed { id: id@, expires_at: t }))
        },
        ClaimCommand::Release { id } => {
            let (l2, r) = release_spec(l, s.actor@, id@, s.repo_id@, now, event_id);
            (l2, map_ok(r, |u: ()| ReplyView::ClaimReleased(id@)))
        },
    }
}

/// The outcome of a claim command that drew `now` and the fresh ids: the
/// range refusal with the ledger unchanged when chrono would fail, else the
/// step.
pub open spec fn claim_handled(
    old: LedgerView,
    cmd: ClaimCommand,
    s: Session,
    new: LedgerView,
    ans: Result<ReplyView, ErrorView>,
    now: i128,
    entity_id: Seq<char>,
    event_id: Seq<char>,
) -> bool {
    &&& 0 <= now <= MAX_INSTANT_NS
    &&& if claim_panics(old, cmd, now as int) {
        new == old && ans == Err::<ReplyView, ErrorView>(ttl_range_error(command_ttl(cmd)))
    } else {
        (new, ans) == claim_step(old, cmd, s, now, entity_id, event_id)
    }
}

impl Ledger {
    /// Whether a claim command would fail chrono's range checks at `now`.
    pub fn claim_would_panic(&self, cmd: &ClaimCommand, now: i128) -> (r: bool)
        requires
            instant_ok(now as int),
        ensures
            r == claim_panics(self@, *cmd, now as int),
    {
        match cmd {
            ClaimCommand::Acquire { path, intent, ttl } => {
                let p = match normalize_path(path.as_str()) {
                    Ok(p) => p,
                    Err(_) => return false,
                };
                if ttl_out_of_range(ttl.as_str()) {
                    return true;
                }
                let span = match parse_ttl(ttl.as_str()) {
                    Ok(s) => s,
                    Err(_) => return false,
                };
                let conflicts = self.check_conflicts(p.as_str(), now);
                let end: i128 = (now as i128) + (span as i128);
                conflicts.len() == 0 && !((MIN_INSTANT_NS as i128) <= end && end <= (MAX_INSTANT_NS as i128))
            },
            ClaimCommand::Renew { id, ttl } => {
                if ttl_out_of_range(ttl.as_str()) {
                    return true;
                }
                let span = match parse_ttl(ttl.as_str()) {
                    Ok(s) => s,
                    Err(_) => return false,
                };
                let end: i128 = (now as i128) + (span as i128);
                !((MIN_INSTANT_NS as i128) <= end && end <= (MAX_INSTANT_NS as i128))
            },
            _ => false,
        }
    }
}

/// Runs a claim command with a given instant and fresh ids.
pub fn apply_claim(cmd: &ClaimCommand, session: &Session, fresh: Fresh, ledger: &mut Ledger) -> (r: Result<Reply, LatchError>)
    requires
        instant_ok(fresh.now as int),
        !claim_panics(old(ledger)@, *cmd, fresh.now as int),
    ensures
        (final(ledger)@, answer(r)) == claim_step(
            old(ledger)@,
            *cmd,
            *session,
            fresh.now,
            fresh.entity_id@,
            fresh.event_id@,
        ),
{
    match cmd {
        ClaimCommand::Acquire { path, intent, ttl } => {
            let i = match intent {
                Some(s) => Some(s.as_str()),
                None => None,
            };
            match ledger.acquire_claim(session.actor.as_str(), path.as_str(), i, ttl.as_str(), session.repo_id.as_str(), fresh) {
                Ok(c) => Ok(Reply::ClaimAcquired(c)),
                Err(e) => Err(e),
            }
        },
        ClaimCommand::List => Ok(Reply::Claims(ledger.live_claims(fresh.now))),
        ClaimCommand::Renew { id, ttl } => {
            match ledger.renew_claim(session.actor.as_str(), id.as_str(), ttl.as_str(), session.repo_id.as_str(), fresh) {
                Ok(t) => Ok(Reply::ClaimRenewed { id: id.clone(), expires_at: t }),
                Err(e) => Err(e),
            }
        },
        ClaimCommand::Release { id } => {
            match ledger.release_claim(session.actor.as_str(), id.as_str(), session.repo_id.as_str(), fresh) {
                Ok(_) => Ok(Reply::ClaimReleased(id.clone())),
                Err(e) => Err(e),
            }
        },
    }
}

/// Runs a claim command with a given instant and fresh ids, refusing a
/// time-to-live that chrono cannot hold at that instant.
pub fn handle_at(cmd: &ClaimCommand, session: &Session, fresh: Fresh, ledger: &mut Ledger) -> (r: Result<Reply, LatchError>)
    requires
        0 <= fresh.now <= MAX_INSTANT_NS,
    ensures
        claim_handled(
            old(ledger)@,
            *cmd,
            *session,
            final(ledger)@,
            answer(r),
            fresh.now,
            fresh.entity_id@,
            fresh.event_id@,
        ),
{
    if ledger.claim_would_panic(cmd, fresh.now) {
        let ttl = match cmd {
            ClaimCommand::Acquire { path, intent, ttl } => ttl.as_str(),
            ClaimCommand::Renew { id, ttl } => ttl.as_str(),
            _ => "",
        };
        return Err(LatchError::Validation(join2("TTL out of range: ", ttl)));
    }
    apply_claim(cmd, session, fresh, ledger)
}

/// Runs a claim command: reads the clock, draws fresh ids, and refuses a
/// time-to-live that chrono cannot hold.
pub fn handle(cmd: &ClaimCommand, session: &Session, ledger: &mut Ledger) -> (r: Result<Reply, LatchError>)
    ensures
        exists|now: i128, entity_id: Seq<char>, event_id: Seq<char>|
            ulid_shaped(entity_id) && ulid_shaped(event_id) && #[trigger] claim_handled(
                old(ledger)@,
                *cmd,
                *session,
                final(ledger)@,
                answer(r),
                now,
                entity_id,
                event_id,
            ),
{
    let f = fresh();
    let ghost now = f.now;
    let ghost a = f.entity_id@;
    let ghost b = f.event_id@;
    let r = handle_at(cmd, session, f, ledger);
    assert(claim_handled(old(ledger)@, *cmd, *session, ledger@, answer(r), now, a, b));
    r
}

} // verus!
