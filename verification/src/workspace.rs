//! Where a project's ledger lives, and the identifier of a project.
use vstd::prelude::*;
use crate::context::expiries_ok;
use crate::clock::instant_ok;
use crate::events::times_ok;
use crate::model::{Ledger, LedgerView};
use crate::text::{hex16, hex16_string, owned};

verus! {

/// `base` joined with the relative component `part` as std's `Path::join`
/// does on Unix: a separator goes between them unless `base` is empty or
/// already ends in one.
pub open spec fn joined_path(base: Seq<char>, part: Seq<char>) -> Seq<char> {
    if base.len() == 0 || base.last() == '/' {
        base + part
    } else {
        base + "/"@ + part
    }
}

/// The ledger file of the project rooted at `repo`: the file
/// `workspace.sqlite` in the directory `.agent-workspace`.
pub open spec fn workspace_file(repo: Seq<char>) -> Seq<char> {
    joined_path(joined_path(repo, ".agent-workspace"@), "workspace.sqlite"@)
}

/// Joins a relative component onto a path.
fn join_path(base: &str, part: &str) -> (out: String)
    ensures
        out@ == joined_path(base@, part@),
{
    let n = base.unicode_len();
    let mut out = owned(base);
    if n > 0 && base.get_char(n - 1) != '/' {
        out.append("/");
    }
    out.append(part);
    proof {
        if n > 0 {
            assert(base@.last() == base@[n - 1]);
        }
    }
    out
}

/// The path of the ledger file: `<repo>/.agent-workspace/workspace.sqlite`.
pub fn workspace_path(repo: &str) -> (out: String)
    ensures
        out@ == workspace_file(repo@),
{
    proof {
        reveal_strlit(".agent-workspace");
        reveal_strlit("workspace.sqlite");
    }
    let dir = join_path(repo, ".agent-workspace");
    join_path(dir.as_str(), "workspace.sqlite")
}

/// What std's `DefaultHasher` finishes with after hashing the string
/// `text`.  Every hasher that `DefaultHasher::new` makes is the same (its
/// keys are fixed, not seeded per process), so the value depends on `text`
/// alone for a given build of std; which algorithm std uses is not stated.
pub uninterp spec fn default_hash(text: Seq<char>) -> u64;

/// std's `DefaultHasher::new`, `<str as Hash>::hash` and `Hasher::finish`:
/// the 64-bit hash of a string under the fixed-key default hasher.  Nothing
/// is claimed of the value beyond its being that hash.
#[verifier::external_body]
fn hash_text(text: &str) -> (h: u64)
    ensures
        h == default_hash(text@),
{
    let mut hasher = std::collections::hash_map::DefaultHasher::new();
    std::hash::Hash::hash(text, &mut hasher);
    std::hash::Hasher::finish(&hasher)
}

/// The identifier of a project: the default hash of its canonical path,
/// as sixteen lower-case hexadecimal digits.
pub fn compute_repo_id(canonical: &str) -> (id: String)
    ensures
        id@ == hex16(default_hash(canonical@)),
{
    hex16_string(hash_text(canonical))
}

/// Every instant the library renders as text lies in chrono's range: the
/// events' times (which `events list --since` compares) and the claims'
/// expiries (which `status` and `context` print).
pub open spec fn well_timed(l: LedgerView) -> bool {
    times_ok(l.events) && expiries_ok(l.claims)
}

impl Ledger {
    /// Whether the ledger is well timed.
    pub fn is_well_timed(&self) -> (r: bool)
        ensures
            r == well_timed(self@),
    {
        let mut i: usize = 0;
        while i < self.events.len()
            invariant
                i <= self.events.len(),
                forall|k: int| 0 <= k < i ==> instant_ok(#[trigger] self@.events[k].created_at as int),
            decreases self.events.len() - i,
        {
            let t = self.events[i].created_at;
            if t < crate::clock::MIN_INSTANT_NS || t > crate::clock::MAX_INSTANT_NS {
                assert(!instant_ok(self@.events[i as int].created_at as int));
                return false;
            }
            i = i + 1;
        }
        let mut j: usize = 0;
        while j < self.claims.len()
            invariant
                j <= self.claims.len(),
                times_ok(self@.events),
                forall|k: int| 0 <= k < j ==> instant_ok(#[trigger] self@.claims[k].expires_at as int),
            decreases self.claims.len() - j,
        {
            let t = self.claims[j].expires_at;
            if t < crate::clock::MIN_INSTANT_NS || t > crate::clock::MAX_INSTANT_NS {
                assert(!instant_ok(self@.claims[j as int].expires_at as int));
                return false;
            }
            j = j + 1;
        }
        true
    }
}

} // verus!
